//! The boundary to the pattern engines: wildcard matching by `glob`, the
//! extension test by `regex`. The contracts of `glob_test` and `regex_is_match`
//! are believed, not proved: each says what the engine's documentation says.

use vstd::prelude::*;

verus! {

/// How a wildcard expression is held against a path.
#[derive(Clone, Copy, Debug, PartialEq, Eq, Structural)]
pub struct MatchOptions {
    /// Letters match only in their own case.
    pub case_sensitive: bool,
    /// A `/` in the path is matched by a literal `/` only, never by `*`, `?` or `[...]`.
    pub require_literal_separator: bool,
    /// A `.` at the start of a path component is matched by a literal `.` only.
    pub require_literal_leading_dot: bool,
}

impl MatchOptions {
    /// The options of a plain match: case-sensitive, with no demand on
    /// separators or leading dots.
    pub fn new() -> (options: MatchOptions)
        ensures
            options == (MatchOptions {
                case_sensitive: true,
                require_literal_separator: false,
                require_literal_leading_dot: false,
            }),
    {
        MatchOptions {
            case_sensitive: true,
            require_literal_separator: false,
            require_literal_leading_dot: false,
        }
    }
}

/// Whether `glob::Pattern::new` accepts `expression` as a wildcard pattern.
pub uninterp spec fn glob_compiles(expression: Seq<char>) -> bool;

/// Whether the pattern that `glob::Pattern::new` builds from `expression` matches
/// `path` in `glob::Pattern::matches_with`, under the three options given. It is
/// the engine's answer for the platform the library is built for, whose path
/// separator the engine goes by.
pub uninterp spec fn glob_matches(
    expression: Seq<char>,
    path: Seq<char>,
    case_sensitive: bool,
    require_literal_separator: bool,
    require_literal_leading_dot: bool,
) -> bool;

/// The engine's answer on `expression`, `path` and `options`: `None` where it
/// rejects the expression, else whether the path matches.
pub open spec fn glob_verdict(expression: Seq<char>, path: Seq<char>, options: MatchOptions) -> Option<
    bool,
> {
    if glob_compiles(expression) {
        Some(
            glob_matches(
                expression,
                path,
                options.case_sensitive,
                options.require_literal_separator,
                options.require_literal_leading_dot,
            ),
        )
    } else {
        None
    }
}

/// Compiles `expression` with `glob::Pattern::new` and holds `path` against it with
/// `glob::Pattern::matches_with`; `None` where the engine rejects the expression.
/// Both outcomes are known by name only: whether an expression compiles depends
/// on the expression alone, and whether it matches on the expression, the path
/// and the options.
#[verifier::external_body]
pub(crate) fn glob_test(expression: &str, path: &str, options: MatchOptions) -> (r: Option<bool>)
    ensures
        r is Some <==> glob_compiles(expression@),
        r matches Some(b) ==> b == glob_matches(
            expression@,
            path@,
            options.case_sensitive,
            options.require_literal_separator,
            options.require_literal_leading_dot,
        ),
{
    match glob::Pattern::new(expression) {
        Ok(pattern) => Some(
            pattern.matches_with(
                path,
                glob::MatchOptions {
                    case_sensitive: options.case_sensitive,
                    require_literal_separator: options.require_literal_separator,
                    require_literal_leading_dot: options.require_literal_leading_dot,
                },
            ),
        ),
        Err(_) => None,
    }
}

/// The regular expression that recognises a literal extension: a dot, then one
/// or more characters other than `*` and `/`, then the end of the text.
pub open spec fn extension_regex() -> Seq<char> {
    "\\.[^\\*/]+$"@
}

/// A character that cannot stand in a literal extension.
pub open spec fn breaks_extension(c: char) -> bool {
    c == '*' || c == '/'
}

/// `s` ends in a literal extension: somewhere a `.` is followed by at least one
/// character, and from there to the end by no `*` and no `/`.
pub open spec fn has_literal_extension(s: Seq<char>) -> bool {
    exists|i: int| is_extension_dot(s, i)
}

/// The `.` at `i` opens a literal extension that runs to the end of `s`.
pub open spec fn is_extension_dot(s: Seq<char>, i: int) -> bool {
    &&& 0 <= i < s.len() - 1
    &&& s[i] == '.'
    &&& forall|j: int| i < j < s.len() ==> !breaks_extension(#[trigger] s[j])
}

/// Compiles `pattern` with `regex::Regex::new` and searches `text` with
/// `regex::Regex::is_match`, which is true exactly when the expression matches
/// somewhere in the text. The contract speaks of one expression only,
/// [`extension_regex`], and spells out what that expression matches by the
/// engine's syntax: `\.` is a literal dot, `[^\*/]` any character but the two
/// listed, `+` one or more of it, `$` the end of the text.
#[verifier::external_body]
pub(crate) fn regex_is_match(pattern: &str, text: &str) -> (r: Option<bool>)
    requires
        pattern@ == extension_regex(),
    ensures
        r == Some(has_literal_extension(text@)),
{
    match regex::Regex::new(pattern) {
        Ok(re) => Some(re.is_match(text)),
        Err(_) => None,
    }
}

} // verus!

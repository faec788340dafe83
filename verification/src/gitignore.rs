//! Expansion of classified rules into wildcard expressions, and the verdict of
//! an ordered rule list on a target path.

use vstd::prelude::*;
use vstd::string::*;
use crate::matcher::{glob_compiles, glob_test, glob_verdict, MatchOptions};
use crate::pattern::{classify, parents, views, Anchor, PathKind, Pattern, PatternView};
use crate::text::{
    chars_end_with, chars_start_with, ends_with, from_chars, negate, starts_with, to_chars,
};

verus! {

/// Used to match globs against user-provided paths.
pub struct Gitignore {
    /// The directory that relative rules are anchored to.
    pub root: String,
    /// Case sensitivity and the handling of leading dots. Whether `*` may cross
    /// a `/` is decided rule by rule, whatever is stored here.
    pub options: MatchOptions,
}

/// One or two wildcard expressions together with the options to evaluate them
/// with. A target matches where it matches one of them.
pub struct MatchSpec {
    /// The path itself, or, for a rule that may be a file or a directory, the
    /// path followed by any suffix.
    pub expression: String,
    /// Everything beneath the path, for a rule anchored at the root that may
    /// be a directory: there a single `*` stops at the next `/`.
    pub descendants: Option<String>,
    pub options: MatchOptions,
}

/// A match expression as a mathematical value.
pub ghost struct MatchSpecView {
    pub expression: Seq<char>,
    pub descendants: Option<Seq<char>>,
    pub options: MatchOptions,
}

impl View for MatchSpec {
    type V = MatchSpecView;

    open spec fn view(&self) -> MatchSpecView {
        MatchSpecView {
            expression: self.expression@,
            descendants: match self.descendants {
                Some(d) => Some(d@),
                None => None,
            },
            options: self.options,
        }
    }
}

/// `p` without one trailing `*`.
pub open spec fn without_trailing_star(p: Seq<char>) -> Seq<char> {
    if ends_with(p, seq!['*']) {
        p.drop_last()
    } else {
        p
    }
}

/// What stands before a rule anchored at `root`: nothing where the rule begins
/// with `**/`, else `root`, with a `/` unless the rule brings its own.
pub open spec fn relative_prefix(root: Seq<char>, p: Seq<char>) -> Seq<char> {
    if starts_with(p, seq!['*', '*', '/']) {
        Seq::empty()
    } else if starts_with(p, seq!['/']) {
        root
    } else {
        root + seq!['/']
    }
}

/// What stands before a rule that matches at any depth beneath `root`.
pub open spec fn anywhere_prefix(root: Seq<char>) -> Seq<char> {
    root + seq!['/', '*', '*', '/']
}

/// What stands before the rule `p` under `anchor`.
pub open spec fn anchor_prefix(root: Seq<char>, anchor: Anchor, p: Seq<char>) -> Seq<char> {
    match anchor {
        Anchor::Anywhere => anywhere_prefix(root),
        Anchor::Relative => relative_prefix(root, p),
    }
}

/// The expression that anchors `p` at `root`: `p` as it stands where it begins
/// with `**/`, else `root` and `p` joined by exactly one `/`; one trailing `*` of
/// `p` is dropped.
pub open spec fn relative_expression(root: Seq<char>, p: Seq<char>) -> Seq<char> {
    relative_prefix(root, p) + without_trailing_star(p)
}

/// The expression that matches `p` at any depth beneath `root`; one trailing `*`
/// of `p` is dropped.
pub open spec fn anywhere_expression(root: Seq<char>, p: Seq<char>) -> Seq<char> {
    anywhere_prefix(root) + without_trailing_star(p)
}

/// What a path kind appends to an expression: nothing for a file, `**/*` (all
/// descendants) for a directory, `*` (any suffix) for a rule that may be either.
pub open spec fn kind_suffix(kind: PathKind) -> Seq<char> {
    match kind {
        PathKind::Both => seq!['*'],
        PathKind::File => Seq::empty(),
        PathKind::Dir => seq!['*', '*', '/', '*'],
    }
}

/// The expression for `from`, read as a path of kind `kind` anchored by `anchor`.
pub open spec fn expression_of(root: Seq<char>, kind: PathKind, anchor: Anchor, from: Seq<char>) -> Seq<
    char,
> {
    anchor_prefix(root, anchor, from) + without_trailing_star(from) + kind_suffix(kind)
}

/// The expression for everything beneath `from`, for a rule anchored at the root
/// that may be a directory: `from` followed by `/**/*`. No other rule has one: a
/// directory rule covers its descendants by its first expression, and so does
/// a rule that matches anywhere, whose `*` may cross a `/`.
pub open spec fn descendants_of(root: Seq<char>, kind: PathKind, anchor: Anchor, from: Seq<char>) -> Option<
    Seq<char>,
> {
    if kind == PathKind::Both && anchor == Anchor::Relative {
        Some(relative_prefix(root, from) + from + seq!['/', '*', '*', '/', '*'])
    } else {
        None
    }
}

/// `base` with the separator rule of `anchor`: `*` stays within one path segment
/// exactly for a relative rule.
pub open spec fn options_of(base: MatchOptions, anchor: Anchor) -> MatchOptions {
    MatchOptions {
        case_sensitive: base.case_sensitive,
        require_literal_separator: anchor == Anchor::Relative,
        require_literal_leading_dot: base.require_literal_leading_dot,
    }
}

/// The expansion of `from`, read as a path of kind `kind` anchored by `anchor`.
pub open spec fn expansion(
    root: Seq<char>,
    base: MatchOptions,
    kind: PathKind,
    anchor: Anchor,
    from: Seq<char>,
) -> MatchSpecView {
    MatchSpecView {
        expression: expression_of(root, kind, anchor, from),
        descendants: descendants_of(root, kind, anchor, from),
        options: options_of(base, anchor),
    }
}

/// The expansion of a classified rule: its own text under its own kind and anchor.
pub open spec fn expand(root: Seq<char>, base: MatchOptions, pattern: PatternView) -> MatchSpecView {
    expansion(root, base, pattern.kind, pattern.anchor, pattern.text)
}

/// `text` names a directory: it ends with `/`, or with `/*` (all that lies in
/// the directory).
pub open spec fn names_directory(text: Seq<char>) -> bool {
    ends_with(without_trailing_star(text), seq!['/'])
}

/// The directory that `text` stands for, with its closing `/`: the text without
/// a trailing `*` where it names a directory, else the text followed by `/`.
pub open spec fn directory_text(text: Seq<char>) -> Seq<char> {
    if names_directory(text) {
        without_trailing_star(text)
    } else {
        text + seq!['/']
    }
}

/// The expansion of a rule's directory: its directory text read as a directory,
/// under the rule's own anchor.
pub open spec fn expand_directory(root: Seq<char>, base: MatchOptions, pattern: PatternView) -> MatchSpecView {
    expansion(root, base, PathKind::Dir, pattern.anchor, directory_text(pattern.text))
}

/// `p` without one trailing `*`, appended to `out`.
fn append_without_trailing_star(out: &mut String, p: &str)
    ensures
        final(out)@ == old(out)@ + without_trailing_star(p@),
{
    let chars = to_chars(p);
    if chars_end_with(&chars, '*') {
        let unformatted = from_chars(&chars, 0, chars.len() - 1);
        assert(unformatted@ =~= p@.drop_last());
        out.append(unformatted.as_str());
    } else {
        out.append(p);
    }
}

/// Whether `text` names a directory.
fn is_directory_text(text: &str) -> (b: bool)
    ensures
        b == names_directory(text@),
{
    let mut stripped = String::new();
    append_without_trailing_star(&mut stripped, text);
    assert(stripped@ =~= without_trailing_star(text@));
    let chars = to_chars(stripped.as_str());
    chars_end_with(&chars, '/')
}

/// The directory that `text` stands for, with its closing `/`.
fn make_directory_text(text: &str) -> (dir: String)
    ensures
        dir@ == directory_text(text@),
{
    let mut dir = String::new();
    if is_directory_text(text) {
        append_without_trailing_star(&mut dir, text);
        assert(dir@ =~= without_trailing_star(text@));
    } else {
        proof {
            reveal_strlit("/");
            assert("/"@ =~= seq!['/']);
        }
        dir.append(text);
        dir.append("/");
        assert(dir@ =~= text@ + seq!['/']);
    }
    dir
}

impl Gitignore {
    /// Creates a new instance. Requires a path that serves as a root for all path
    /// calculations and matching options.
    pub fn new(root: String, options: MatchOptions) -> (ig: Gitignore)
        ensures
            ig.root == root,
            ig.options == options,
    {
        Gitignore { root, options }
    }

    /// What stands before the rule `p` where it is anchored at the root.
    fn make_relative_prefix(&self, p: &str) -> (prefix: String)
        ensures
            prefix@ == relative_prefix(self.root@, p@),
    {
        let chars = to_chars(p);
        let mut prefix = String::new();
        proof {
            reveal_strlit("**/");
            reveal_strlit("/");
            assert("**/"@ =~= seq!['*', '*', '/']);
            assert("/"@ =~= seq!['/']);
        }
        if chars_start_with(&chars, "**/") {
            return prefix;
        }
        prefix.append(self.root.as_str());
        if !chars_start_with(&chars, "/") {
            prefix.append("/");
        }
        assert(prefix@ =~= relative_prefix(self.root@, p@));
        prefix
    }

    /// The expression that anchors `p` at the root.
    pub fn make_relative(&self, p: &str) -> (path: String)
        ensures
            path@ == relative_expression(self.root@, p@),
    {
        let mut path = self.make_relative_prefix(p);
        append_without_trailing_star(&mut path, p);
        path
    }

    /// The expression that matches `p` at any depth beneath the root.
    pub fn make_matchable_anywhere(&self, p: &str) -> (path: String)
        ensures
            path@ == anywhere_expression(self.root@, p@),
    {
        let mut path = String::new();
        proof {
            reveal_strlit("/**/");
            assert("/**/"@ =~= seq!['/', '*', '*', '/']);
        }
        path.append(self.root.as_str());
        path.append("/**/");
        append_without_trailing_star(&mut path, p);
        assert(path@ =~= anywhere_expression(self.root@, p@));
        path
    }

    /// The expression for everything beneath `from`, where a rule of this kind
    /// and anchor has one.
    fn make_descendants(&self, kind: PathKind, anchor: Anchor, from: &str) -> (path: Option<String>)
        ensures
            path is Some <==> descendants_of(self.root@, kind, anchor, from@) is Some,
            path matches Some(d) ==> Some(d@) == descendants_of(self.root@, kind, anchor, from@),
    {
        if matches!(kind, PathKind::Both) && matches!(anchor, Anchor::Relative) {
            proof {
                reveal_strlit("/**/*");
                assert("/**/*"@ =~= seq!['/', '*', '*', '/', '*']);
            }
            let mut path = self.make_relative_prefix(from);
            path.append(from);
            path.append("/**/*");
            Some(path)
        } else {
            None
        }
    }

    /// The expansion of `from`, read as a path of kind `kind` anchored by `anchor`.
    fn make_path(&self, kind: PathKind, anchor: Anchor, from: &str) -> (expanded: MatchSpec)
        ensures
            expanded@ == expansion(self.root@, self.options, kind, anchor, from@),
    {
        let (mut expression, literal) = match anchor {
            Anchor::Anywhere => (self.make_matchable_anywhere(from), false),
            Anchor::Relative => (self.make_relative(from), true),
        };
        proof {
            reveal_strlit("*");
            reveal_strlit("**/*");
            assert("*"@ =~= seq!['*']);
            assert("**/*"@ =~= seq!['*', '*', '/', '*']);
        }
        let ghost anchored = expression@;
        match kind {
            PathKind::Both => expression.append("*"),
            PathKind::File => {},
            PathKind::Dir => expression.append("**/*"),
        }
        assert(expression@ =~= anchored + kind_suffix(kind));
        let descendants = self.make_descendants(kind, anchor, from);
        MatchSpec {
            expression,
            descendants,
            options: MatchOptions {
                case_sensitive: self.options.case_sensitive,
                require_literal_separator: literal,
                require_literal_leading_dot: self.options.require_literal_leading_dot,
            },
        }
    }

    /// The expression to hold a target against for the rule `glob`, whose text is
    /// `from`, and the options to evaluate it with.
    pub fn make_full_path(&self, glob: &Pattern, from: &str) -> (expanded: MatchSpec)
        ensures
            expanded@ == expansion(self.root@, self.options, glob.path_kind, glob.match_type, from@),
            from@ == glob.string@ ==> expanded@ == expand(self.root@, self.options, glob@),
    {
        self.make_path(glob.path_kind, glob.match_type, from)
    }

    /// The expression that covers the directory of the rule `dir` and everything
    /// beneath it, under the anchor that `dir` was classified with.
    pub fn make_directory_path(&self, dir: &Pattern) -> (expanded: MatchSpec)
        ensures
            expanded@ == expand_directory(self.root@, self.options, dir@),
    {
        let text = make_directory_text(dir.string.as_str());
        self.make_path(PathKind::Dir, dir.match_type, text.as_str())
    }

    /// The rules that block their directory: the classified rule of every line
    /// that may denote a directory, is not negated, and none of whose ancestor
    /// directories is negated by a line of the list.
    pub fn find_ignored_dirs(&self, lines: &[&str]) -> (ignored_dirs: Vec<Pattern>)
        ensures
            pattern_views(ignored_dirs@) == blocked_directories(rule_views(lines@)),
            forall|i: int| 0 <= i < ignored_dirs.len() ==> (#[trigger] ignored_dirs[i]).is_classified(),
    {
        let ghost rules = rule_views(lines@);
        let mut ignored_dirs: Vec<Pattern> = Vec::new();
        let mut i: usize = 0;
        assert(pattern_views(ignored_dirs@) =~= blocked_before(rules, 0));
        while i < lines.len()
            invariant
                i <= lines.len(),
                rules == rule_views(lines@),
                pattern_views(ignored_dirs@) == blocked_before(rules, i as int),
                forall|k: int|
                    0 <= k < ignored_dirs.len() ==> (#[trigger] ignored_dirs[k]).is_classified(),
            decreases lines.len() - i,
        {
            let glob = Pattern::new(lines[i]);
            assert(glob@ == classify(rules[i as int]));
            if blocks_directory(&glob, lines) {
                let ghost before = pattern_views(ignored_dirs@);
                ignored_dirs.push(glob);
                assert(pattern_views(ignored_dirs@) =~= before.push(classify(rules[i as int])));
            }
            i += 1;
        }
        ignored_dirs
    }

    /// Checks if the target is ignored by provided list of gitignore patterns.
    ///
    /// A target inside a blocked directory is ignored whatever else the list
    /// holds. For every other target the last rule that matches decides: the
    /// target is ignored unless that rule is negated. A rule with an empty text
    /// has no effect. An expression that the wildcard engine rejects matches
    /// nothing: such a rule is skipped, and such a directory blocks nothing.
    pub fn ignores(&self, lines: &[&str], target: &str) -> (excluded: bool)
        ensures
            excluded == excludes(self.root@, self.options, rule_views(lines@), target@),
    {
        let ghost rules = rule_views(lines@);
        let ignored_dirs = self.find_ignored_dirs(lines);

        let mut d: usize = 0;
        while d < ignored_dirs.len()
            invariant
                d <= ignored_dirs.len(),
                rules == rule_views(lines@),
                pattern_views(ignored_dirs@) == blocked_directories(rules),
                forall|k: int|
                    0 <= k < d ==> !directory_contains(
                        self.root@,
                        self.options,
                        #[trigger] blocked_directories(rules)[k],
                        target@,
                    ),
            decreases ignored_dirs.len() - d,
        {
            let long_glob = self.make_directory_path(&ignored_dirs[d]);
            assert(pattern_views(ignored_dirs@)[d as int] == ignored_dirs[d as int]@);
            // Early return because nothing can re-include it
            if is_match(&long_glob, target) {
                assert(directory_contains(
                    self.root@,
                    self.options,
                    blocked_directories(rules)[d as int],
                    target@,
                ));
                return true;
            }
            d += 1;
        }

        let mut is_ignored = false;
        let mut i: usize = 0;
        while i < lines.len()
            invariant
                i <= lines.len(),
                rules == rule_views(lines@),
                is_ignored == last_match(self.root@, self.options, rules, target@, i as int),
            decreases lines.len() - i,
        {
            let glob = Pattern::new(lines[i]);
            assert(glob@ == classify(rules[i as int]));
            if !glob.string.as_str().is_empty() {
                let full_path = self.make_full_path(&glob, glob.string.as_str());
                if is_match(&full_path, target) {
                    is_ignored = !glob.negated;
                }
            }
            i += 1;
        }
        is_ignored
    }

    /// The indices of the rules that are skipped because the wildcard engine
    /// rejects an expression of their expansion, in increasing order.
    pub fn rejected_rules(&self, lines: &[&str]) -> (rejected: Vec<usize>)
        ensures
            forall|i: int|
                0 <= i < lines.len() ==> (rejected@.contains(i as usize) <==> is_rejected(
                    self.root@,
                    self.options,
                    #[trigger] rule_views(lines@)[i],
                )),
            forall|k: int| 0 <= k < rejected.len() ==> #[trigger] rejected[k] < lines.len(),
            forall|j: int, k: int| 0 <= j < k < rejected.len() ==> rejected[j] < rejected[k],
    {
        let ghost rules = rule_views(lines@);
        let mut broken: Vec<bool> = Vec::new();
        let mut i: usize = 0;
        while i < lines.len()
            invariant
                i <= lines.len(),
                broken.len() == i,
                rules == rule_views(lines@),
                forall|n: int|
                    0 <= n < i ==> broken[n] == is_rejected(
                        self.root@,
                        self.options,
                        #[trigger] rules[n],
                    ),
            decreases lines.len() - i,
        {
            let glob = Pattern::new(lines[i]);
            assert(glob@ == classify(rules[i as int]));
            let mut rejected_here = false;
            if !glob.string.as_str().is_empty() {
                let full_path = self.make_full_path(&glob, glob.string.as_str());
                rejected_here = !is_accepted(&full_path);
            }
            broken.push(rejected_here);
            i += 1;
        }
        marked(&broken)
    }

    /// The indices of the rules that would block their directory, but block
    /// nothing because the wildcard engine rejects the directory's expression,
    /// in increasing order.
    pub fn rejected_directories(&self, lines: &[&str]) -> (rejected: Vec<usize>)
        ensures
            forall|i: int|
                0 <= i < lines.len() ==> (rejected@.contains(i as usize)
                    <==> is_rejected_directory(
                    self.root@,
                    self.options,
                    rule_views(lines@),
                    #[trigger] rule_views(lines@)[i],
                )),
            forall|k: int| 0 <= k < rejected.len() ==> #[trigger] rejected[k] < lines.len(),
            forall|j: int, k: int| 0 <= j < k < rejected.len() ==> rejected[j] < rejected[k],
    {
        let ghost rules = rule_views(lines@);
        let mut broken: Vec<bool> = Vec::new();
        let mut i: usize = 0;
        while i < lines.len()
            invariant
                i <= lines.len(),
                broken.len() == i,
                rules == rule_views(lines@),
                forall|n: int|
                    0 <= n < i ==> broken[n] == is_rejected_directory(
                        self.root@,
                        self.options,
                        rules,
                        #[trigger] rules[n],
                    ),
            decreases lines.len() - i,
        {
            let glob = Pattern::new(lines[i]);
            assert(glob@ == classify(rules[i as int]));
            let mut rejected_here = false;
            if blocks_directory(&glob, lines) {
                let long_glob = self.make_directory_path(&glob);
                rejected_here = !is_accepted(&long_glob);
            }
            broken.push(rejected_here);
            i += 1;
        }
        marked(&broken)
    }
}

/// The views of a list of rules.
pub open spec fn rule_views(lines: Seq<&str>) -> Seq<Seq<char>> {
    lines.map_values(|line: &str| line@)
}

/// The views of a list of classified rules.
pub open spec fn pattern_views(patterns: Seq<Pattern>) -> Seq<PatternView> {
    patterns.map_values(|pattern: Pattern| pattern@)
}

/// `rule` is the negation of the directory `dir`, letter for letter.
pub open spec fn negates(rule: Seq<char>, dir: Seq<char>) -> bool {
    rule == seq!['!'] + dir
}

/// Some rule of the list negates an ancestor directory of `text`, in either of
/// its spellings.
pub open spec fn has_negated_parent(rules: Seq<Seq<char>>, text: Seq<char>) -> bool {
    exists|k: int, j: int|
        0 <= k < parents(text).len() && 0 <= j < rules.len() && #[trigger] negates(
            rules[j],
            parents(text)[k],
        )
}

/// The classified rule `pattern` blocks its directory: it has a text, it may
/// denote a directory, it is not negated, and no rule of the list negates one
/// of its ancestors.
pub open spec fn pattern_blocks(rules: Seq<Seq<char>>, pattern: PatternView) -> bool {
    &&& pattern.text.len() > 0
    &&& pattern.kind != PathKind::File
    &&& !pattern.negated
    &&& !has_negated_parent(rules, pattern.text)
}

/// The rule at `i` blocks its directory.
pub open spec fn blocks(rules: Seq<Seq<char>>, i: int) -> bool {
    pattern_blocks(rules, classify(rules[i]))
}

/// The classified rules among the first `n` that block their directory, in the
/// order of the list.
pub open spec fn blocked_before(rules: Seq<Seq<char>>, n: int) -> Seq<PatternView>
    decreases n,
{
    if n <= 0 {
        Seq::empty()
    } else if blocks(rules, n - 1) {
        blocked_before(rules, n - 1).push(classify(rules[n - 1]))
    } else {
        blocked_before(rules, n - 1)
    }
}

/// The blocked directories of a rule list.
pub open spec fn blocked_directories(rules: Seq<Seq<char>>) -> Seq<PatternView> {
    blocked_before(rules, rules.len() as int)
}

/// The wildcard engine accepts every expression of `expanded`.
pub open spec fn accepted(expanded: MatchSpecView) -> bool {
    &&& glob_compiles(expanded.expression)
    &&& expanded.descendants matches Some(d) ==> glob_compiles(d)
}

/// The wildcard engine accepts every expression of `expanded` and finds that
/// one of them matches `target`.
pub open spec fn hits(expanded: MatchSpecView, target: Seq<char>) -> bool {
    &&& accepted(expanded)
    &&& {
        ||| glob_verdict(expanded.expression, target, expanded.options) == Some(true)
        ||| expanded.descendants matches Some(d) && glob_verdict(d, target, expanded.options)
            == Some(true)
    }
}

/// `target` is the blocked directory `dir` or lies beneath it.
pub open spec fn directory_contains(
    root: Seq<char>,
    base: MatchOptions,
    dir: PatternView,
    target: Seq<char>,
) -> bool {
    hits(expand_directory(root, base, dir), target)
}

/// Some blocked directory of the list contains `target`.
pub open spec fn in_blocked_directory(
    root: Seq<char>,
    base: MatchOptions,
    rules: Seq<Seq<char>>,
    target: Seq<char>,
) -> bool {
    exists|k: int|
        0 <= k < blocked_directories(rules).len() && directory_contains(
            root,
            base,
            #[trigger] blocked_directories(rules)[k],
            target,
        )
}

/// The rule `raw` has a text, and its expansion matches `target`.
pub open spec fn rule_matches(root: Seq<char>, base: MatchOptions, raw: Seq<char>, target: Seq<char>) -> bool {
    classify(raw).text.len() > 0 && hits(expand(root, base, classify(raw)), target)
}

/// The rule `raw` has a text, and the wildcard engine rejects an expression of
/// its expansion.
pub open spec fn is_rejected(root: Seq<char>, base: MatchOptions, raw: Seq<char>) -> bool {
    classify(raw).text.len() > 0 && !accepted(expand(root, base, classify(raw)))
}

/// The rule `raw` would block its directory among `rules`, and the wildcard
/// engine rejects the expression of that directory.
pub open spec fn is_rejected_directory(
    root: Seq<char>,
    base: MatchOptions,
    rules: Seq<Seq<char>>,
    raw: Seq<char>,
) -> bool {
    pattern_blocks(rules, classify(raw)) && !accepted(expand_directory(root, base, classify(raw)))
}

/// What the last matching rule among the first `n` says of `target`: excluded
/// unless that rule is negated; not excluded where none matches.
pub open spec fn last_match(
    root: Seq<char>,
    base: MatchOptions,
    rules: Seq<Seq<char>>,
    target: Seq<char>,
    n: int,
) -> bool
    decreases n,
{
    if n <= 0 {
        false
    } else if rule_matches(root, base, rules[n - 1], target) {
        !classify(rules[n - 1]).negated
    } else {
        last_match(root, base, rules, target, n - 1)
    }
}

/// Whether the rule list excludes `target`: it lies in a blocked directory, or
/// the last rule that matches it is not negated.
pub open spec fn excludes(root: Seq<char>, base: MatchOptions, rules: Seq<Seq<char>>, target: Seq<char>) -> bool {
    in_blocked_directory(root, base, rules, target) || last_match(
        root,
        base,
        rules,
        target,
        rules.len() as int,
    )
}

/// Whether the wildcard engine accepts every expression of `expanded` and finds
/// that one of them matches `target`.
fn is_match(expanded: &MatchSpec, target: &str) -> (hit: bool)
    ensures
        hit == hits(expanded@, target@),
{
    match glob_test(expanded.expression.as_str(), target, expanded.options) {
        None => false,
        Some(path_hit) => match &expanded.descendants {
            None => path_hit,
            Some(d) => match glob_test(d.as_str(), target, expanded.options) {
                None => false,
                Some(below_hit) => path_hit || below_hit,
            },
        },
    }
}

/// Whether the wildcard engine accepts every expression of `expanded`.
fn is_accepted(expanded: &MatchSpec) -> (ok: bool)
    ensures
        ok == accepted(expanded@),
{
    match glob_test(expanded.expression.as_str(), "", expanded.options) {
        None => false,
        Some(_) => match &expanded.descendants {
            None => true,
            Some(d) => glob_test(d.as_str(), "", expanded.options).is_some(),
        },
    }
}

/// The indices at which `flags` holds `true`, in increasing order.
fn marked(flags: &Vec<bool>) -> (found: Vec<usize>)
    ensures
        forall|i: int| 0 <= i < flags.len() ==> (found@.contains(i as usize) <==> #[trigger] flags[i]),
        forall|k: int| 0 <= k < found.len() ==> #[trigger] found[k] < flags.len(),
        forall|j: int, k: int| 0 <= j < k < found.len() ==> found[j] < found[k],
{
    let mut found: Vec<usize> = Vec::new();
    let mut i: usize = 0;
    while i < flags.len()
        invariant
            i <= flags.len(),
            forall|n: int| 0 <= n < i ==> (found@.contains(n as usize) <==> #[trigger] flags[n]),
            forall|k: int| 0 <= k < found.len() ==> #[trigger] found[k] < i,
            forall|j: int, k: int| 0 <= j < k < found.len() ==> found[j] < found[k],
        decreases flags.len() - i,
    {
        let ghost before = found@;
        if flags[i] {
            found.push(i);
            assert(found@.last() == i);
        }
        assert forall|n: int| 0 <= n <= i implies (found@.contains(n as usize)
            <==> #[trigger] flags[n]) by {
            if before.contains(n as usize) {
                let k = before.index_of(n as usize);
                assert(found@[k] == n as usize);
            }
            if found@.contains(n as usize) {
                let k = found@.index_of(n as usize);
                assert(k < before.len() ==> before[k] == n as usize);
            }
        }
        i += 1;
    }
    found
}

/// Whether the classified rule `glob` blocks its directory among `lines`.
fn blocks_directory(glob: &Pattern, lines: &[&str]) -> (b: bool)
    ensures
        b == pattern_blocks(rule_views(lines@), glob@),
{
    !glob.string.as_str().is_empty() && !matches!(glob.path_kind, PathKind::File) && !glob.negated
        && !has_negated_parents(glob, lines)
}

/// Whether two strings hold the same characters.
fn same_text(a: &str, b: &str) -> (same: bool)
    ensures
        same == (a@ == b@),
{
    a.to_owned() == b.to_owned()
}

/// Whether some line is `needle`, letter for letter.
fn contains_line(lines: &[&str], needle: &str) -> (found: bool)
    ensures
        found == exists|j: int| 0 <= j < lines.len() && #[trigger] rule_views(lines@)[j] == needle@,
{
    let mut j: usize = 0;
    while j < lines.len()
        invariant
            j <= lines.len(),
            forall|n: int| 0 <= n < j ==> #[trigger] rule_views(lines@)[n] != needle@,
        decreases lines.len() - j,
    {
        if same_text(lines[j], needle) {
            assert(rule_views(lines@)[j as int] == needle@);
            return true;
        }
        j += 1;
    }
    false
}

/// Whether some line negates an ancestor directory of `glob`.
fn has_negated_parents(glob: &Pattern, lines: &[&str]) -> (found: bool)
    ensures
        found == has_negated_parent(rule_views(lines@), glob.string@),
{
    let ghost rules = rule_views(lines@);
    let dirs = glob.get_parents();
    let mut k: usize = 0;
    while k < dirs.len()
        invariant
            k <= dirs.len(),
            rules == rule_views(lines@),
            views(dirs@) == parents(glob.string@),
            forall|m: int, j: int|
                0 <= m < k && 0 <= j < rules.len() ==> !#[trigger] negates(
                    rules[j],
                    parents(glob.string@)[m],
                ),
        decreases dirs.len() - k,
    {
        let negated = negate(dirs[k].as_str());
        assert(views(dirs@)[k as int] == dirs[k as int]@);
        if contains_line(lines, negated.as_str()) {
            proof {
                let j = choose|j: int| 0 <= j < lines.len() && #[trigger] rules[j] == negated@;
                assert(negates(rules[j], parents(glob.string@)[k as int]));
            }
            return true;
        }
        k += 1;
    }
    false
}

} // verus!

//! Classification of one rule: negation, anchor and path kind.

use vstd::prelude::*;
use vstd::string::*;
use crate::matcher::{has_literal_extension, regex_is_match};
use crate::text::{
    chars_end_with, chars_start_with, ends_with, first_char, from_chars, has_no_middle_separators,
    push_char, remove_whitespace, segment_count, starts_with, to_chars, without_whitespace,
};

verus! {

/// Where a rule may match.
#[derive(Clone, Copy, Debug, PartialEq, Eq, Structural)]
pub enum Anchor {
    /// A single path segment, matched at any depth below the root.
    Anywhere,
    /// A path matched from the root, or from a leading `**/`.
    Relative,
}

/// What a rule can denote.
#[derive(Clone, Copy, Debug, PartialEq, Eq, Structural)]
pub enum PathKind {
    /// A directory and all that lies beneath it: the rule ends with `/`.
    Dir,
    /// A file: the rule ends in a literal extension.
    File,
    /// A file, or a directory with all that lies beneath it.
    Both,
}

/// Represents a glob pattern and meta information about it.
pub struct Pattern {
    /// The rule without its leading `!` and without whitespace.
    pub string: String,
    pub match_type: Anchor,
    pub path_kind: PathKind,
    pub negated: bool,
}

/// A classified rule as a mathematical value.
pub ghost struct PatternView {
    pub text: Seq<char>,
    pub anchor: Anchor,
    pub kind: PathKind,
    pub negated: bool,
}

impl View for Pattern {
    type V = PatternView;

    open spec fn view(&self) -> PatternView {
        PatternView {
            text: self.string@,
            anchor: self.match_type,
            kind: self.path_kind,
            negated: self.negated,
        }
    }
}

/// The rule begins with `!`.
pub open spec fn rule_is_negated(raw: Seq<char>) -> bool {
    raw.len() > 0 && raw[0] == '!'
}

/// The rule without a leading `!` and without any whitespace.
pub open spec fn rule_text(raw: Seq<char>) -> Seq<char> {
    without_whitespace(
        if rule_is_negated(raw) {
            raw.skip(1)
        } else {
            raw
        },
    )
}

/// `Anywhere` for a text that begins with neither `**` nor `/` and has at most one
/// non-empty segment; `Relative` for every other.
pub open spec fn anchor_of(text: Seq<char>) -> Anchor {
    if !starts_with(text, seq!['*', '*']) && !starts_with(text, seq!['/']) && segment_count(text)
        <= 1 {
        Anchor::Anywhere
    } else {
        Anchor::Relative
    }
}

/// `Dir` for a text that ends with `/`, else `File` for one that ends in a literal
/// extension, else `Both`.
pub open spec fn kind_of(text: Seq<char>) -> PathKind {
    if ends_with(text, seq!['/']) {
        PathKind::Dir
    } else if has_literal_extension(text) {
        PathKind::File
    } else {
        PathKind::Both
    }
}

/// The classification of the rule `raw`.
pub open spec fn classify(raw: Seq<char>) -> PatternView {
    PatternView {
        text: rule_text(raw),
        anchor: anchor_of(rule_text(raw)),
        kind: kind_of(rule_text(raw)),
        negated: rule_is_negated(raw),
    }
}

/// The views of a sequence of strings.
pub open spec fn views(strings: Seq<String>) -> Seq<Seq<char>> {
    strings.map_values(|s: String| s@)
}

/// The two spellings of a directory prefix, the rooted one first: `/` + `dir` and
/// `dir` where `dir` does not begin with `/`; `dir` and `dir` without its first
/// `/` where it does. An empty spelling is left out.
pub open spec fn directory_forms(dir: Seq<char>) -> Seq<Seq<char>> {
    if !starts_with(dir, seq!['/']) {
        seq![seq!['/'] + dir, dir]
    } else if dir.len() > 1 {
        seq![dir, dir.skip(1)]
    } else {
        seq![dir]
    }
}

/// The directory forms of every prefix of `text` that ends with a `/` standing
/// before index `n`, the longest prefix first.
pub open spec fn parents_within(text: Seq<char>, n: int) -> Seq<Seq<char>>
    decreases n,
{
    if n <= 0 {
        Seq::empty()
    } else if text[n - 1] == '/' {
        directory_forms(text.take(n)) + parents_within(text, n - 1)
    } else {
        parents_within(text, n - 1)
    }
}

/// The ancestor directories of `text`: for each `/` in it, the directory forms of
/// the prefix that ends there, the longest prefix first.
pub open spec fn parents(text: Seq<char>) -> Seq<Seq<char>> {
    parents_within(text, text.len() as int)
}

impl Pattern {
    /// This pattern is the classification of its own text: anchor and kind are
    /// those that the text determines.
    pub open spec fn is_classified(&self) -> bool {
        self.match_type == anchor_of(self.string@) && self.path_kind == kind_of(self.string@)
    }

    /// Classifies one rule. Every string is a rule.
    pub fn new(glob: &str) -> (pattern: Pattern)
        ensures
            pattern@ == classify(glob@),
            pattern.is_classified(),
    {
        let raw = to_chars(glob);
        let negated = raw.len() > 0 && raw[0] == '!';
        let without_neg = if negated {
            from_chars(&raw, 1, raw.len())
        } else {
            from_chars(&raw, 0, raw.len())
        };
        assert(without_neg@ == if rule_is_negated(glob@) {
            glob@.skip(1)
        } else {
            glob@
        });
        let normalized_glob = remove_whitespace(without_neg.as_str());
        let chars = to_chars(normalized_glob.as_str());

        proof {
            reveal_strlit("**");
            assert("**"@ =~= seq!['*', '*']);
            assert(starts_with(chars@, seq!['/']) <==> chars@.len() > 0 && chars@[0] == '/') by {
                if chars@.len() > 0 {
                    assert(chars@.subrange(0, 1) =~= seq![chars@[0]]);
                    assert(seq!['/'][0] == '/');
                }
            }
        }
        let match_type = if !chars_start_with(&chars, "**") && (chars.len() == 0 || first_char(
            normalized_glob.as_str(),
        ) != '/') && has_no_middle_separators(normalized_glob.as_str()) {
            Anchor::Anywhere
        } else {
            Anchor::Relative
        };

        let path_kind = if chars_end_with(&chars, '/') {
            PathKind::Dir
        } else {
            let has_extension = match regex_is_match("\\.[^\\*/]+$", normalized_glob.as_str())
            {
                Some(found) => found,
                None => false,
            };
            if has_extension {
                PathKind::File
            } else {
                PathKind::Both
            }
        };

        Pattern { string: normalized_glob, negated, match_type, path_kind }
    }

    /// The ancestor directories of this pattern's text, each with and without a
    /// leading `/`.
    pub fn get_parents(&self) -> (found: Vec<String>)
        ensures
            views(found@) == parents(self.string@),
    {
        let chars = to_chars(self.string.as_str());
        let mut found: Vec<String> = Vec::new();
        let mut n: usize = chars.len();
        assert(views(found@) =~= Seq::<Seq<char>>::empty());
        while n > 0
            invariant
                n <= chars.len(),
                chars@ == self.string@,
                views(found@) + parents_within(chars@, n as int) == parents(chars@),
            decreases n,
        {
            if chars[n - 1] == '/' {
                let joined = from_chars(&chars, 0, n);
                let ghost before = views(found@);
                assert(starts_with(joined@, seq!['/']) <==> chars@[0] == '/') by {
                    assert(joined@.subrange(0, 1) =~= seq![joined@[0]]);
                    assert(seq!['/'][0] == '/');
                }
                if chars[0] == '/' {
                    if n > 1 {
                        let unrooted = from_chars(&chars, 1, n);
                        assert(unrooted@ =~= joined@.skip(1));
                        found.push(joined);
                        found.push(unrooted);
                    } else {
                        found.push(joined);
                    }
                    assert(views(found@) =~= before + directory_forms(chars@.take(n as int)));
                } else {
                    let mut rooted = String::new();
                    push_char(&mut rooted, '/');
                    rooted.append(joined.as_str());
                    assert(rooted@ =~= seq!['/'] + joined@);
                    found.push(rooted);
                    found.push(joined);
                    assert(views(found@) =~= before + directory_forms(chars@.take(n as int)));
                }
                assert(before + (directory_forms(chars@.take(n as int)) + parents_within(
                    chars@,
                    n - 1,
                )) =~= (before + directory_forms(chars@.take(n as int))) + parents_within(
                    chars@,
                    n - 1,
                ));
            }
            n -= 1;
        }
        assert(views(found@) + Seq::<Seq<char>>::empty() =~= views(found@));
        found
    }
}

} // verus!

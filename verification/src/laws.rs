//! What holds of classification, expansion and verdicts on every input.

use vstd::prelude::*;
use crate::gitignore::{
    accepted, blocked_before, blocked_directories, blocks, directory_contains, excludes, expand,
    expand_directory, has_negated_parent, in_blocked_directory, is_rejected, last_match,
    negates, relative_prefix, rule_matches,
};
use crate::matcher::{glob_matches, MatchOptions};
use crate::pattern::{
    anchor_of, classify, directory_forms, kind_of, parents, rule_is_negated, rule_text, Anchor,
    PathKind,
};
use crate::text::{ends_with, is_whitespace, starts_with, without_whitespace};

verus! {

/// Two option sets that agree on everything but the separator flag.
pub open spec fn same_but_separator(a: MatchOptions, b: MatchOptions) -> bool {
    a.case_sensitive == b.case_sensitive && a.require_literal_leading_dot
        == b.require_literal_leading_dot
}

/// Anchor and kind of a classified rule are determined by its text, and the
/// text and the negation by the rule: two rules with the same characters have
/// the same classification, and a classification is that of its own text.
pub proof fn lemma_classification_is_determined_by_the_rule(a: Seq<char>, b: Seq<char>)
    requires
        a == b,
    ensures
        classify(a) == classify(b),
        classify(a).text == rule_text(a),
        classify(a).negated == rule_is_negated(a),
        classify(a).anchor == anchor_of(classify(a).text),
        classify(a).kind == kind_of(classify(a).text),
{
}

/// The expansion of a rule depends on the rule and the root alone: whatever
/// separator flag the options hold, expression and separator rule come out the
/// same, and the separator rule is strict exactly for a relative rule.
pub proof fn lemma_expansion_depends_on_rule_and_root(
    raw: Seq<char>,
    root: Seq<char>,
    a: MatchOptions,
    b: MatchOptions,
)
    ensures
        expand(root, a, classify(raw)).expression == expand(root, b, classify(raw)).expression,
        expand(root, a, classify(raw)).descendants == expand(root, b, classify(raw)).descendants,
        expand(root, a, classify(raw)).options.require_literal_separator == expand(
            root,
            b,
            classify(raw),
        ).options.require_literal_separator,
        expand(root, a, classify(raw)).options.require_literal_separator == (classify(raw).anchor
            == Anchor::Relative),
        same_but_separator(a, b) ==> expand(root, a, classify(raw)) == expand(
            root,
            b,
            classify(raw),
        ),
{
}

/// The verdict is a function of root, rules, target, case sensitivity and the
/// handling of leading dots: the separator flag that the options hold has no
/// part in it.
pub proof fn lemma_verdict_ignores_the_stored_separator_flag(
    root: Seq<char>,
    a: MatchOptions,
    b: MatchOptions,
    rules: Seq<Seq<char>>,
    target: Seq<char>,
)
    requires
        same_but_separator(a, b),
    ensures
        excludes(root, a, rules, target) == excludes(root, b, rules, target),
{
    lemma_last_match_ignores_the_stored_separator_flag(
        root,
        a,
        b,
        rules,
        target,
        rules.len() as int,
    );
    assert forall|k: int| 0 <= k < blocked_directories(rules).len() implies directory_contains(
        root,
        a,
        #[trigger] blocked_directories(rules)[k],
        target,
    ) == directory_contains(root, b, blocked_directories(rules)[k], target) by {
        let dir = blocked_directories(rules)[k];
        assert(expand_directory(root, a, dir) == expand_directory(root, b, dir));
    }
}

proof fn lemma_last_match_ignores_the_stored_separator_flag(
    root: Seq<char>,
    a: MatchOptions,
    b: MatchOptions,
    rules: Seq<Seq<char>>,
    target: Seq<char>,
    n: int,
)
    requires
        same_but_separator(a, b),
    ensures
        last_match(root, a, rules, target, n) == last_match(root, b, rules, target, n),
    decreases n,
{
    if n > 0 {
        let pattern = classify(rules[n - 1]);
        assert(expand(root, a, pattern) == expand(root, b, pattern));
        lemma_last_match_ignores_the_stored_separator_flag(root, a, b, rules, target, n - 1);
    }
}

/// An empty rule list excludes nothing.
pub proof fn lemma_no_rules_exclude_nothing(root: Seq<char>, base: MatchOptions, target: Seq<char>)
    ensures
        !excludes(root, base, Seq::<Seq<char>>::empty(), target),
{
}

/// A list of rules that all have an empty text excludes nothing.
pub proof fn lemma_rules_without_text_exclude_nothing(
    root: Seq<char>,
    base: MatchOptions,
    rules: Seq<Seq<char>>,
    target: Seq<char>,
)
    requires
        forall|i: int| 0 <= i < rules.len() ==> rule_text(#[trigger] rules[i]).len() == 0,
    ensures
        !excludes(root, base, rules, target),
{
    lemma_without_text_nothing_before(root, base, rules, target, rules.len() as int);
}

proof fn lemma_without_text_nothing_before(
    root: Seq<char>,
    base: MatchOptions,
    rules: Seq<Seq<char>>,
    target: Seq<char>,
    n: int,
)
    requires
        n <= rules.len(),
        forall|i: int| 0 <= i < rules.len() ==> rule_text(#[trigger] rules[i]).len() == 0,
    ensures
        blocked_before(rules, n).len() == 0,
        !last_match(root, base, rules, target, n),
    decreases n,
{
    if n > 0 {
        lemma_without_text_nothing_before(root, base, rules, target, n - 1);
        assert(!blocks(rules, n - 1));
        assert(!rule_matches(root, base, rules[n - 1], target));
    }
}

/// Outside the blocked directories the last rule decides where it matches: the
/// target is excluded exactly if that rule is not negated, whatever came before.
pub proof fn lemma_last_matching_rule_wins(
    root: Seq<char>,
    base: MatchOptions,
    rules: Seq<Seq<char>>,
    target: Seq<char>,
)
    requires
        rules.len() > 0,
        rule_matches(root, base, rules.last(), target),
        !in_blocked_directory(root, base, rules, target),
    ensures
        excludes(root, base, rules, target) == !rule_is_negated(rules.last()),
{
}

/// A rule that does not match leaves the verdict of the rules before it as it
/// was, outside the blocked directories.
pub proof fn lemma_unmatched_rule_keeps_the_verdict(
    root: Seq<char>,
    base: MatchOptions,
    rules: Seq<Seq<char>>,
    target: Seq<char>,
)
    requires
        rules.len() > 0,
        !rule_matches(root, base, rules.last(), target),
        !in_blocked_directory(root, base, rules, target),
    ensures
        excludes(root, base, rules, target) == last_match(
            root,
            base,
            rules,
            target,
            rules.len() - 1,
        ),
{
}

/// A target inside a blocked directory is excluded, whatever the rules that
/// match it say.
pub proof fn lemma_blocked_directory_cannot_be_overridden(
    root: Seq<char>,
    base: MatchOptions,
    rules: Seq<Seq<char>>,
    target: Seq<char>,
    i: int,
)
    requires
        0 <= i < blocked_directories(rules).len(),
        directory_contains(root, base, blocked_directories(rules)[i], target),
    ensures
        excludes(root, base, rules, target),
{
}

/// A directory is its own first ancestor: the ancestors of a text that ends with
/// `/` begin with the spellings of that text itself, rooted and unrooted.
pub proof fn lemma_directory_is_among_its_parents(text: Seq<char>)
    requires
        ends_with(text, seq!['/']),
    ensures
        parents(text).len() >= directory_forms(text).len(),
        forall|k: int|
            0 <= k < directory_forms(text).len() ==> parents(text)[k] == directory_forms(text)[k],
        directory_forms(text).contains(text),
        !starts_with(text, seq!['/']) ==> directory_forms(text).contains(seq!['/'] + text),
        starts_with(text, seq!['/']) && text.len() > 1 ==> directory_forms(text).contains(
            text.skip(1),
        ),
{
    let n = text.len() as int;
    assert(text.subrange(n - 1, n)[0] == seq!['/'][0]);
    assert(text.take(n) =~= text);
    let forms = directory_forms(text);
    if !starts_with(text, seq!['/']) {
        assert(forms[0] == seq!['/'] + text);
        assert(forms[1] == text);
    } else {
        assert(forms[0] == text);
        if text.len() > 1 {
            assert(forms[1] == text.skip(1));
        }
    }
}

/// A directory rule blocks nothing where a rule of the list negates that same
/// directory, in either spelling: with the leading `/` or without it.
pub proof fn lemma_negating_the_directory_unblocks_it(rules: Seq<Seq<char>>, i: int, j: int, k: int)
    requires
        0 <= i < rules.len(),
        0 <= j < rules.len(),
        ends_with(rule_text(rules[i]), seq!['/']),
        0 <= k < directory_forms(rule_text(rules[i])).len(),
        negates(rules[j], directory_forms(rule_text(rules[i]))[k]),
    ensures
        !blocks(rules, i),
        !blocks(rules, j),
{
    let text = rule_text(rules[i]);
    lemma_directory_is_among_its_parents(text);
    assert(negates(rules[j], parents(text)[k]));
    assert(has_negated_parent(rules, text));
    assert(rules[j][0] == '!');
}

/// Every rule that blocks stands in the blocked list, a rule that may be a
/// file or a directory like a directory rule.
pub proof fn lemma_blocking_rule_is_listed(rules: Seq<Seq<char>>, i: int)
    requires
        0 <= i < rules.len(),
        blocks(rules, i),
    ensures
        blocked_directories(rules).contains(classify(rules[i])),
{
    lemma_blocking_rule_is_listed_before(rules, i, rules.len() as int);
}

proof fn lemma_blocking_rule_is_listed_before(rules: Seq<Seq<char>>, i: int, n: int)
    requires
        0 <= i < n <= rules.len(),
        blocks(rules, i),
    ensures
        blocked_before(rules, n).contains(classify(rules[i])),
    decreases n,
{
    if i == n - 1 {
        assert(blocked_before(rules, n).last() == classify(rules[i]));
    } else {
        lemma_blocking_rule_is_listed_before(rules, i, n - 1);
        let k = blocked_before(rules, n - 1).index_of(classify(rules[i]));
        assert(blocked_before(rules, n)[k] == classify(rules[i]));
    }
}

/// A target beneath the directory of a rule that blocks is excluded, whatever
/// the other rules say of it.
pub proof fn lemma_blocking_rule_excludes_its_directory(
    root: Seq<char>,
    base: MatchOptions,
    rules: Seq<Seq<char>>,
    i: int,
    target: Seq<char>,
)
    requires
        0 <= i < rules.len(),
        blocks(rules, i),
        directory_contains(root, base, classify(rules[i]), target),
    ensures
        excludes(root, base, rules, target),
{
    lemma_blocking_rule_is_listed(rules, i);
    let k = blocked_directories(rules).index_of(classify(rules[i]));
    assert(directory_contains(root, base, blocked_directories(rules)[k], target));
}

/// A rule that the wildcard engine rejects matches no target.
pub proof fn lemma_rejected_rule_matches_nothing(
    root: Seq<char>,
    base: MatchOptions,
    raw: Seq<char>,
    target: Seq<char>,
)
    requires
        is_rejected(root, base, raw),
    ensures
        !rule_matches(root, base, raw, target),
{
}

/// A rule anchored at the root that may be a directory covers what lies beneath
/// it: it matches every target that the engine finds under the rule's text
/// followed by `/**/*`.
pub proof fn lemma_relative_rule_covers_its_descendants(
    root: Seq<char>,
    base: MatchOptions,
    raw: Seq<char>,
    target: Seq<char>,
)
    requires
        classify(raw).text.len() > 0,
        classify(raw).kind == PathKind::Both,
        classify(raw).anchor == Anchor::Relative,
        accepted(expand(root, base, classify(raw))),
        glob_matches(
            relative_prefix(root, classify(raw).text) + classify(raw).text + seq![
                '/',
                '*',
                '*',
                '/',
                '*',
            ],
            target,
            base.case_sensitive,
            true,
            base.require_literal_leading_dot,
        ),
    ensures
        rule_matches(root, base, raw, target),
{
}

/// Removing whitespace leaves a text alone that holds none, and what it
/// returns never holds any.
pub proof fn lemma_whitespace_removal(s: Seq<char>)
    ensures
        forall|i: int| 0 <= i < without_whitespace(s).len() ==> !is_whitespace(
            #[trigger] without_whitespace(s)[i],
        ),
        (forall|i: int| 0 <= i < s.len() ==> !is_whitespace(#[trigger] s[i])) ==> without_whitespace(s)
            == s,
        without_whitespace(without_whitespace(s)) == without_whitespace(s),
    decreases s.len(),
{
    reveal(Seq::filter);
    if s.len() > 0 {
        lemma_whitespace_removal(s.drop_last());
    }
    if forall|i: int| 0 <= i < s.len() ==> !is_whitespace(#[trigger] s[i]) {
        lemma_kept_text_is_kept(s);
    }
    lemma_kept_text_is_kept(without_whitespace(s));
}

proof fn lemma_kept_text_is_kept(s: Seq<char>)
    requires
        forall|i: int| 0 <= i < s.len() ==> !is_whitespace(#[trigger] s[i]),
    ensures
        without_whitespace(s) == s,
    decreases s.len(),
{
    reveal(Seq::filter);
    if s.len() > 0 {
        assert forall|i: int| 0 <= i < s.drop_last().len() implies !is_whitespace(
            #[trigger] s.drop_last()[i],
        ) by {
            assert(s.drop_last()[i] == s[i]);
        }
        lemma_kept_text_is_kept(s.drop_last());
        assert(s.drop_last().push(s.last()) =~= s);
    }
}

} // verus!

//! Character-level helpers on rule strings.
//!
//! Every function here is stated over the `Seq<char>` view of its arguments.

use vstd::prelude::*;
use vstd::string::*;

verus! {

/// Whether `c` carries the Unicode `White_Space` property: the controls U+0009
/// to U+000D, the space, U+0085, U+00A0, U+1680, U+2000 to U+200A, U+2028,
/// U+2029, U+202F, U+205F and U+3000.
pub open spec fn is_whitespace(c: char) -> bool {
    ||| '\u{9}' <= c <= '\u{d}'
    ||| c == ' '
    ||| c == '\u{85}'
    ||| c == '\u{a0}'
    ||| c == '\u{1680}'
    ||| '\u{2000}' <= c <= '\u{200a}'
    ||| c == '\u{2028}'
    ||| c == '\u{2029}'
    ||| c == '\u{202f}'
    ||| c == '\u{205f}'
    ||| c == '\u{3000}'
}

/// Calls `char::is_whitespace`, which is true exactly of the characters with the
/// Unicode `White_Space` property. The contract writes that set out.
#[verifier::external_body]
pub(crate) fn char_is_whitespace(c: char) -> (b: bool)
    ensures
        b == is_whitespace(c),
{
    c.is_whitespace()
}

/// Calls `String::push`, which appends one character to the end of the string.
#[verifier::external_body]
pub(crate) fn push_char(s: &mut String, c: char)
    ensures
        final(s)@ == old(s)@.push(c),
{
    s.push(c)
}

/// `s` begins with `prefix`.
pub open spec fn starts_with(s: Seq<char>, prefix: Seq<char>) -> bool {
    prefix.len() <= s.len() && s.subrange(0, prefix.len() as int) == prefix
}

/// `s` ends with `suffix`.
pub open spec fn ends_with(s: Seq<char>, suffix: Seq<char>) -> bool {
    suffix.len() <= s.len() && s.subrange(s.len() - suffix.len(), s.len() as int) == suffix
}

/// `s` with every whitespace character taken out, the others in their order.
pub open spec fn without_whitespace(s: Seq<char>) -> Seq<char> {
    s.filter(|c: char| !is_whitespace(c))
}

/// A path segment begins at `i`: a character other than `/` that stands first or
/// directly behind a `/`.
pub open spec fn is_segment_start(s: Seq<char>, i: int) -> bool {
    0 <= i < s.len() && s[i] != '/' && (i == 0 || s[i - 1] == '/')
}

/// The number of non-empty `/`-separated segments that begin before index `n`.
pub open spec fn segments_before(s: Seq<char>, n: int) -> nat
    decreases n,
{
    if n <= 0 {
        0
    } else {
        segments_before(s, n - 1) + if is_segment_start(s, n - 1) {
            1nat
        } else {
            0nat
        }
    }
}

/// The number of non-empty segments that splitting `s` on `/` yields.
pub open spec fn segment_count(s: Seq<char>) -> nat {
    segments_before(s, s.len() as int)
}

/// The characters of `s`, in order.
pub(crate) fn to_chars(s: &str) -> (v: Vec<char>)
    ensures
        v@ == s@,
{
    broadcast use vstd::string::group_string_axioms;

    let mut v: Vec<char> = Vec::new();
    for c in it: s.chars()
        invariant
            it.seq() == s@,
            v@ == s@.take(it.index()),
    {
        v.push(c);
        assert(s@.take(it.index() + 1) =~= s@.take(it.index()).push(c));
    }
    assert(s@.take(s@.len() as int) =~= s@);
    v
}

/// The string made of the characters `v[from..to]`.
pub(crate) fn from_chars(v: &Vec<char>, from: usize, to: usize) -> (s: String)
    requires
        from <= to <= v.len(),
    ensures
        s@ == v@.subrange(from as int, to as int),
{
    let mut s = String::new();
    let mut i: usize = from;
    while i < to
        invariant
            from <= i <= to <= v.len(),
            s@ == v@.subrange(from as int, i as int),
        decreases to - i,
    {
        push_char(&mut s, v[i]);
        assert(v@.subrange(from as int, i + 1) =~= v@.subrange(from as int, i as int).push(
            v@[i as int],
        ));
        i += 1;
    }
    s
}

/// The first character of a non-empty string.
pub fn first_char(string: &str) -> (c: char)
    requires
        string@.len() > 0,
    ensures
        c == string@[0],
{
    string.get_char(0)
}

/// The rule that negates `string`: `!` put in front of it.
pub fn negate(string: &str) -> (negated: String)
    ensures
        negated@ == seq!['!'] + string@,
{
    let mut negated = String::new();
    push_char(&mut negated, '!');
    negated.append(string);
    assert(negated@ =~= seq!['!'] + string@);
    negated
}

/// Whether splitting `string` on `/` leaves at most one non-empty segment.
pub fn has_no_middle_separators(string: &str) -> (b: bool)
    ensures
        b == (segment_count(string@) <= 1),
{
    let v = to_chars(string);
    let mut count: usize = 0;
    let mut i: usize = 0;
    while i < v.len()
        invariant
            i <= v.len(),
            count == segments_before(v@, i as int),
            count <= i,
        decreases v.len() - i,
    {
        if v[i] != '/' && (i == 0 || v[i - 1] == '/') {
            count += 1;
        }
        i += 1;
    }
    count <= 1
}

/// `s` without its whitespace characters.
pub fn remove_whitespace(s: &str) -> (out: String)
    ensures
        out@ == without_whitespace(s@),
{
    let v = to_chars(s);
    let mut out = String::new();
    let mut i: usize = 0;
    while i < v.len()
        invariant
            i <= v.len(),
            out@ == without_whitespace(v@.take(i as int)),
        decreases v.len() - i,
    {
        let c = v[i];
        proof {
            lemma_without_whitespace_push(v@.take(i as int), c);
            assert(v@.take(i + 1) =~= v@.take(i as int).push(c));
        }
        if !char_is_whitespace(c) {
            push_char(&mut out, c);
        }
        i += 1;
    }
    assert(v@.take(v.len() as int) =~= v@);
    out
}

/// Filtering whitespace out of `s.push(c)` keeps `c` exactly when it is no whitespace.
proof fn lemma_without_whitespace_push(s: Seq<char>, c: char)
    ensures
        without_whitespace(Seq::<char>::empty()) == Seq::<char>::empty(),
        without_whitespace(s.push(c)) == if is_whitespace(c) {
            without_whitespace(s)
        } else {
            without_whitespace(s).push(c)
        },
{
    reveal(Seq::filter);
    assert(s.push(c).drop_last() =~= s);
}

/// Whether `v` begins with `prefix`.
pub(crate) fn chars_start_with(v: &Vec<char>, prefix: &str) -> (b: bool)
    ensures
        b == starts_with(v@, prefix@),
{
    let p = to_chars(prefix);
    if p.len() > v.len() {
        return false;
    }
    let mut i: usize = 0;
    while i < p.len()
        invariant
            i <= p.len() <= v.len(),
            p@ == prefix@,
            v@.subrange(0, i as int) == p@.subrange(0, i as int),
        decreases p.len() - i,
    {
        if v[i] != p[i] {
            assert(v@.subrange(0, p.len() as int)[i as int] != p@[i as int]);
            return false;
        }
        assert(v@.subrange(0, i + 1) =~= v@.subrange(0, i as int).push(v@[i as int]));
        assert(p@.subrange(0, i + 1) =~= p@.subrange(0, i as int).push(p@[i as int]));
        i += 1;
    }
    assert(p@.subrange(0, p.len() as int) =~= p@);
    true
}

/// Whether `v` ends with the character `c`.
pub(crate) fn chars_end_with(v: &Vec<char>, c: char) -> (b: bool)
    ensures
        b == ends_with(v@, seq![c]),
{
    if v.len() == 0 {
        return false;
    }
    let last = v[v.len() - 1];
    assert(v@.subrange(v.len() - 1, v.len() as int) =~= seq![last]);
    assert(seq![last][0] == last);
    last == c
}

} // verus!

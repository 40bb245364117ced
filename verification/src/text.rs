//! Character-level text utilities.
//!
//! Strings are handled as sequences of characters: every function here has a
//! contract over `Seq<char>`, and the executable versions work on `Vec<char>`.

use vstd::prelude::*;

verus! {

/// Whether `pat` occurs in `s` starting at index `i`.
pub open spec fn occurs_at(s: Seq<char>, pat: Seq<char>, i: int) -> bool {
    0 <= i && i + pat.len() <= s.len() && s.subrange(i, i + pat.len()) == pat
}

/// The first index at or after `from` where `pat` occurs in `s`.
pub open spec fn first_occurrence_from(s: Seq<char>, pat: Seq<char>, from: int) -> Option<int>
    decreases s.len() - from + 1,
{
    if from < 0 || from + pat.len() > s.len() {
        None
    } else if occurs_at(s, pat, from) {
        Some(from)
    } else {
        first_occurrence_from(s, pat, from + 1)
    }
}

/// The first index where `pat` occurs in `s`.
pub open spec fn first_occurrence(s: Seq<char>, pat: Seq<char>) -> Option<int> {
    first_occurrence_from(s, pat, 0)
}

/// The first index of the character `c` in `s`.
pub open spec fn first_index(s: Seq<char>, c: char) -> Option<int> {
    first_occurrence(s, seq![c])
}

/// The last index of the character `c` in `s`.
pub open spec fn last_index(s: Seq<char>, c: char) -> Option<int>
    decreases s.len(),
{
    if s.len() == 0 {
        None
    } else if s.last() == c {
        Some(s.len() - 1)
    } else {
        last_index(s.drop_last(), c)
    }
}

/// Whether `s` ends with `suffix`.
pub open spec fn ends_with(s: Seq<char>, suffix: Seq<char>) -> bool {
    occurs_at(s, suffix, s.len() - suffix.len())
}

/// `s` with every trailing repetition of `suffix` removed.
pub open spec fn without_suffix(s: Seq<char>, suffix: Seq<char>) -> Seq<char>
    decreases s.len(),
{
    if suffix.len() > 0 && ends_with(s, suffix) {
        without_suffix(s.take(s.len() - suffix.len()), suffix)
    } else {
        s
    }
}

/// `s` with every `from` replaced by `to`.
pub open spec fn replaced(s: Seq<char>, from: char, to: char) -> Seq<char> {
    Seq::new(s.len(), |i: int| if s[i] == from { to } else { s[i] })
}

/// What follows the last `sep` in `s`; all of `s` where it holds no `sep`.
pub open spec fn last_segment(s: Seq<char>, sep: char) -> Seq<char> {
    match last_index(s, sep) {
        Some(i) => s.skip(i + 1),
        None => s,
    }
}

/// Whether `c` is white space: what `char::is_whitespace` of std says of it,
/// which goes by the Unicode property `White_Space`.
pub uninterp spec fn is_whitespace(c: char) -> bool;

/// `s` without the white space it begins with.
pub open spec fn trimmed_start(s: Seq<char>) -> Seq<char>
    decreases s.len(),
{
    if s.len() > 0 && is_whitespace(s.first()) {
        trimmed_start(s.drop_first())
    } else {
        s
    }
}

/// `s` without the white space it ends with.
pub open spec fn trimmed_end(s: Seq<char>) -> Seq<char>
    decreases s.len(),
{
    if s.len() > 0 && is_whitespace(s.last()) {
        trimmed_end(s.drop_last())
    } else {
        s
    }
}

/// `s` without the white space around it.
pub open spec fn trimmed(s: Seq<char>) -> Seq<char> {
    trimmed_end(trimmed_start(s))
}

/// `first_occurrence_from` finds the least matching index at or after `from`.
pub proof fn lemma_first_occurrence_from(s: Seq<char>, pat: Seq<char>, from: int)
    requires
        0 <= from,
    ensures
        match first_occurrence_from(s, pat, from) {
            Some(i) => from <= i && occurs_at(s, pat, i) && forall|j: int|
                from <= j < i ==> !occurs_at(s, pat, j),
            None => forall|j: int| from <= j ==> !occurs_at(s, pat, j),
        },
    decreases s.len() - from + 1,
{
    if from + pat.len() > s.len() {
    } else if occurs_at(s, pat, from) {
    } else {
        lemma_first_occurrence_from(s, pat, from + 1);
    }
}

/// An index where `pat` occurs, with no occurrence before it, is the first
/// occurrence.
pub proof fn lemma_first_occurrence_is(s: Seq<char>, pat: Seq<char>, k: int)
    requires
        occurs_at(s, pat, k),
        forall|j: int| 0 <= j < k ==> !occurs_at(s, pat, j),
    ensures
        first_occurrence(s, pat) == Some(k),
{
    lemma_first_occurrence_from(s, pat, 0);
}

/// Where `pat` occurs nowhere in `s`, there is no first occurrence.
pub proof fn lemma_first_occurrence_none(s: Seq<char>, pat: Seq<char>)
    requires
        forall|j: int| 0 <= j ==> !occurs_at(s, pat, j),
    ensures
        first_occurrence(s, pat) is None,
{
    lemma_first_occurrence_from(s, pat, 0);
}

/// A one-character pattern occurs exactly where that character stands.
pub proof fn lemma_occurs_at_char(s: Seq<char>, c: char, i: int)
    ensures
        occurs_at(s, seq![c], i) <==> (0 <= i < s.len() && s[i] == c),
{
    if 0 <= i < s.len() {
        let sub = s.subrange(i, i + 1);
        assert(sub[0] == s[i]);
        if s[i] == c {
            assert(sub =~= seq![c]);
        } else {
            assert(seq![c][0] == c);
        }
    }
}

/// `last_index` finds the greatest index that holds `c`.
pub proof fn lemma_last_index(s: Seq<char>, c: char)
    ensures
        match last_index(s, c) {
            Some(i) => 0 <= i < s.len() && s[i] == c && forall|j: int|
                i < j < s.len() ==> s[j] != c,
            None => forall|j: int| 0 <= j < s.len() ==> s[j] != c,
        },
    decreases s.len(),
{
    if s.len() > 0 && s.last() != c {
        let front = s.drop_last();
        lemma_last_index(front, c);
        assert forall|j: int| 0 <= j < front.len() implies front[j] == s[j] by {}
    }
}

/// A pattern that follows a prefix without the pattern's first character
/// occurs first right after that prefix.
pub proof fn lemma_first_occurrence_after(prefix: Seq<char>, pat: Seq<char>, rest: Seq<char>)
    requires
        pat.len() > 0,
        forall|i: int| 0 <= i < prefix.len() ==> prefix[i] != pat[0],
    ensures
        first_occurrence(prefix + pat + rest, pat) == Some(prefix.len() as int),
{
    let s = prefix + pat + rest;
    let n = prefix.len() as int;
    assert(s.subrange(n, n + pat.len()) =~= pat);
    assert forall|j: int| 0 <= j < n implies !occurs_at(s, pat, j) by {
        if occurs_at(s, pat, j) {
            assert(s.subrange(j, j + pat.len())[0] == s[j]);
            assert(s[j] == prefix[j]);
        }
    }
    lemma_first_occurrence_is(s, pat, n);
}

/// A character that follows a prefix without it stands first right after
/// that prefix.
pub proof fn lemma_first_index_after(prefix: Seq<char>, c: char, rest: Seq<char>)
    requires
        forall|i: int| 0 <= i < prefix.len() ==> prefix[i] != c,
    ensures
        first_index(prefix + seq![c] + rest, c) == Some(prefix.len() as int),
{
    lemma_first_occurrence_after(prefix, seq![c], rest);
}

/// A text without the character `c` has no first index of it.
pub proof fn lemma_first_index_none(s: Seq<char>, c: char)
    requires
        forall|i: int| 0 <= i < s.len() ==> s[i] != c,
    ensures
        first_index(s, c) is None,
{
    assert forall|j: int| 0 <= j implies !occurs_at(s, seq![c], j) by {
        lemma_occurs_at_char(s, c, j);
    }
    lemma_first_occurrence_none(s, seq![c]);
}

/// A text without the first character of a pattern does not hold the
/// pattern.
pub proof fn lemma_first_occurrence_without_first(s: Seq<char>, pat: Seq<char>)
    requires
        pat.len() > 0,
        forall|i: int| 0 <= i < s.len() ==> s[i] != pat[0],
    ensures
        first_occurrence(s, pat) is None,
{
    assert forall|j: int| 0 <= j implies !occurs_at(s, pat, j) by {
        if occurs_at(s, pat, j) {
            assert(s.subrange(j, j + pat.len())[0] == s[j]);
        }
    }
    lemma_first_occurrence_none(s, pat);
}

/// A suffix that was added once to a text that does not end with it is
/// taken off again, and nothing more.
pub proof fn lemma_without_suffix_added(s: Seq<char>, suffix: Seq<char>)
    requires
        suffix.len() > 0,
        !ends_with(s, suffix),
    ensures
        without_suffix(s, suffix) == s,
        without_suffix(s + suffix, suffix) == s,
{
    let t = s + suffix;
    assert(t.subrange(t.len() - suffix.len(), t.len() as int) =~= suffix);
    assert(t.take(t.len() - suffix.len()) =~= s);
    reveal_with_fuel(without_suffix, 2);
}

/// What is left when a suffix was taken off does not end with it.
pub proof fn lemma_without_suffix_clean(s: Seq<char>, suffix: Seq<char>)
    requires
        suffix.len() > 0,
    ensures
        !ends_with(without_suffix(s, suffix), suffix),
        without_suffix(s, suffix).len() <= s.len(),
    decreases s.len(),
{
    if ends_with(s, suffix) {
        lemma_without_suffix_clean(s.take(s.len() - suffix.len()), suffix);
    }
}

/// A text ends with what its tail ends with.
pub proof fn lemma_ends_with_tail(s: Seq<char>, k: int, suffix: Seq<char>)
    requires
        0 <= k <= s.len(),
        ends_with(s.skip(k), suffix),
    ensures
        ends_with(s, suffix),
{
    let tail = s.skip(k);
    let at = tail.len() - suffix.len();
    assert(s.subrange(k + at, k + at + suffix.len()) =~= tail.subrange(at, at + suffix.len()));
}

/// What follows the last separator: the text after a separator is the last
/// segment where it holds no separator itself.
pub proof fn lemma_last_segment_after(prefix: Seq<char>, sep: char, segment: Seq<char>)
    requires
        forall|i: int| 0 <= i < segment.len() ==> segment[i] != sep,
    ensures
        last_segment(prefix + seq![sep] + segment, sep) == segment,
{
    let s = prefix + seq![sep] + segment;
    let k = prefix.len() as int;
    lemma_last_index(s, sep);
    assert(s[k] == sep);
    assert forall|j: int| k < j < s.len() implies s[j] != sep by {
        assert(s[j] == segment[j - k - 1]);
    }
    assert(last_index(s, sep) == Some(k));
    assert(s.skip(k + 1) =~= segment);
}

/// Replacing keeps the length, changes exactly the characters that are
/// replaced, and leaves none of them behind.
pub proof fn lemma_replaced(s: Seq<char>, from: char, to: char)
    ensures
        replaced(s, from, to).len() == s.len(),
        forall|i: int|
            0 <= i < s.len() ==> #[trigger] replaced(s, from, to)[i] == if s[i] == from {
                to
            } else {
                s[i]
            },
        from != to ==> forall|i: int|
            0 <= i < s.len() ==> #[trigger] replaced(s, from, to)[i] != from,
{
}

/// Appends `c` to `s`: `String::push` of std, which adds the given character
/// to the end of the string.
#[verifier::external_body]
fn push_char(s: &mut String, c: char)
    ensures
        final(s)@ == old(s)@.push(c),
{
    s.push(c);
}

/// The characters of `s`, in order.
pub fn to_chars(s: &str) -> (v: Vec<char>)
    ensures
        v@ == s@,
{
    let mut v: Vec<char> = Vec::new();
    for c in it: s.chars()
        invariant
            it.seq() == s@,
            v@ == s@.take(it.index() as int),
    {
        v.push(c);
    }
    v
}

/// The string made of the characters of `v`.
pub fn to_text(v: &Vec<char>) -> (s: String)
    ensures
        s@ == v@,
{
    let mut s = String::new();
    let mut i: usize = 0;
    while i < v.len()
        invariant
            i <= v.len(),
            s@ == v@.take(i as int),
        decreases v.len() - i,
    {
        push_char(&mut s, v[i]);
        i += 1;
    }
    s
}

/// The characters of `v` from index `lo` up to `hi`.
pub fn slice(v: &Vec<char>, lo: usize, hi: usize) -> (r: Vec<char>)
    requires
        lo <= hi <= v.len(),
    ensures
        r@ == v@.subrange(lo as int, hi as int),
{
    let mut r: Vec<char> = Vec::new();
    let mut i: usize = lo;
    while i < hi
        invariant
            lo <= i <= hi <= v.len(),
            r@ == v@.subrange(lo as int, i as int),
        decreases hi - i,
    {
        r.push(v[i]);
        i += 1;
    }
    r
}

/// Whether `a` and `b` hold the same characters.
pub fn same(a: &Vec<char>, b: &Vec<char>) -> (r: bool)
    ensures
        r == (a@ == b@),
{
    if a.len() != b.len() {
        return false;
    }
    let mut i: usize = 0;
    while i < a.len()
        invariant
            i <= a.len(),
            a.len() == b.len(),
            forall|j: int| 0 <= j < i ==> a@[j] == b@[j],
        decreases a.len() - i,
    {
        if a[i] != b[i] {
            return false;
        }
        i += 1;
    }
    assert(a@ =~= b@);
    true
}

/// Whether `pat` occurs in `v` at index `at`.
pub fn occurs(v: &Vec<char>, pat: &Vec<char>, at: usize) -> (b: bool)
    ensures
        b == occurs_at(v@, pat@, at as int),
{
    if pat.len() > v.len() || at > v.len() - pat.len() {
        return false;
    }
    let ghost window = v@.subrange(at as int, at + pat.len());
    let mut k: usize = 0;
    while k < pat.len()
        invariant
            k <= pat.len(),
            at + pat.len() <= v.len(),
            window == v@.subrange(at as int, at + pat.len()),
            forall|j: int| 0 <= j < k ==> window[j] == pat@[j],
        decreases pat.len() - k,
    {
        if v[at + k] != pat[k] {
            assert(window[k as int] == v@[at + k]);
            return false;
        }
        assert(window[k as int] == v@[at + k]);
        k += 1;
    }
    assert(window =~= pat@);
    true
}

/// The first index where `pat` occurs in `v`.
pub fn find(v: &Vec<char>, pat: &Vec<char>) -> (r: Option<usize>)
    ensures
        match r {
            Some(i) => first_occurrence(v@, pat@) == Some(i as int) && i + pat.len() <= v.len(),
            None => first_occurrence(v@, pat@) is None,
        },
{
    if pat.len() > v.len() {
        return None;
    }
    let last: usize = v.len() - pat.len();
    let mut i: usize = 0;
    while i <= last
        invariant
            i <= last + 1,
            last == v.len() - pat.len(),
            first_occurrence(v@, pat@) == first_occurrence_from(v@, pat@, i as int),
        decreases last + 1 - i,
    {
        if occurs(v, pat, i) {
            return Some(i);
        }
        if i == last {
            assert(first_occurrence_from(v@, pat@, i + 1) is None);
            return None;
        }
        i += 1;
    }
    None
}

/// The first index of `c` in `v`.
pub fn find_char(v: &Vec<char>, c: char) -> (r: Option<usize>)
    ensures
        match r {
            Some(i) => first_index(v@, c) == Some(i as int) && i < v.len(),
            None => first_index(v@, c) is None,
        },
{
    let mut i: usize = 0;
    while i < v.len()
        invariant
            i <= v.len(),
            forall|j: int| 0 <= j < i ==> v@[j] != c,
        decreases v.len() - i,
    {
        if v[i] == c {
            proof {
                assert forall|j: int| 0 <= j < i implies !occurs_at(v@, seq![c], j) by {
                    lemma_occurs_at_char(v@, c, j);
                }
                lemma_occurs_at_char(v@, c, i as int);
                lemma_first_occurrence_is(v@, seq![c], i as int);
            }
            return Some(i);
        }
        i += 1;
    }
    proof {
        assert forall|j: int| 0 <= j implies !occurs_at(v@, seq![c], j) by {
            lemma_occurs_at_char(v@, c, j);
        }
        lemma_first_occurrence_none(v@, seq![c]);
    }
    None
}

/// The last index of `c` in `v`.
pub fn rfind_char(v: &Vec<char>, c: char) -> (r: Option<usize>)
    ensures
        match r {
            Some(i) => last_index(v@, c) == Some(i as int) && i < v.len(),
            None => last_index(v@, c) is None,
        },
{
    let mut n: usize = v.len();
    assert(v@.take(n as int) =~= v@);
    while n > 0
        invariant
            n <= v.len(),
            last_index(v@, c) == last_index(v@.take(n as int), c),
        decreases n,
    {
        if v[n - 1] == c {
            return Some(n - 1);
        }
        assert(v@.take(n as int).drop_last() =~= v@.take(n - 1));
        n -= 1;
    }
    None
}

/// `v` without the trailing repetitions of `suffix`.
pub fn trim_end_matches(v: &Vec<char>, suffix: &Vec<char>) -> (r: Vec<char>)
    ensures
        r@ == without_suffix(v@, suffix@),
{
    let mut n: usize = v.len();
    assert(v@.take(n as int) =~= v@);
    if suffix.len() > 0 {
        while n >= suffix.len() && occurs(v, suffix, n - suffix.len())
            invariant
                n <= v.len(),
                suffix.len() > 0,
                without_suffix(v@, suffix@) == without_suffix(v@.take(n as int), suffix@),
            decreases n,
        {
            proof {
                let t = v@.take(n as int);
                let at = n - suffix.len();
                assert(t.subrange(at, at + suffix.len()) =~= v@.subrange(at, at + suffix.len()));
                assert(t.take(at) =~= v@.take(at));
            }
            n -= suffix.len();
        }
        proof {
            let t = v@.take(n as int);
            if n >= suffix.len() {
                let at = n - suffix.len();
                assert(t.subrange(at, at + suffix.len()) =~= v@.subrange(at, at + suffix.len()));
            }
        }
    }
    assert(v@.subrange(0, n as int) =~= v@.take(n as int));
    slice(v, 0, n)
}

/// Whether `c` is white space: `char::is_whitespace` of std.
#[verifier::external_body]
fn whitespace(c: char) -> (b: bool)
    ensures
        b == is_whitespace(c),
{
    c.is_whitespace()
}

/// `v` without the white space around it.
pub fn trim(v: &Vec<char>) -> (r: Vec<char>)
    ensures
        r@ == trimmed(v@),
{
    let mut lo: usize = 0;
    assert(v@.skip(0) =~= v@);
    while lo < v.len() && whitespace(v[lo])
        invariant
            lo <= v.len(),
            trimmed_start(v@) == trimmed_start(v@.skip(lo as int)),
        decreases v.len() - lo,
    {
        assert(v@.skip(lo as int).drop_first() =~= v@.skip(lo + 1));
        lo += 1;
    }
    assert(trimmed_start(v@) == v@.skip(lo as int));
    let mut hi: usize = v.len();
    assert(v@.subrange(lo as int, hi as int) =~= v@.skip(lo as int));
    while hi > lo && whitespace(v[hi - 1])
        invariant
            lo <= hi <= v.len(),
            trimmed(v@) == trimmed_end(v@.subrange(lo as int, hi as int)),
        decreases hi,
    {
        assert(v@.subrange(lo as int, hi as int).drop_last() =~= v@.subrange(lo as int, hi - 1));
        hi -= 1;
    }
    slice(v, lo, hi)
}

/// Whether `v` ends with `suffix`.
pub fn has_suffix(v: &Vec<char>, suffix: &Vec<char>) -> (b: bool)
    ensures
        b == ends_with(v@, suffix@),
{
    if suffix.len() > v.len() {
        return false;
    }
    occurs(v, suffix, v.len() - suffix.len())
}

/// `v` with every `from` replaced by `to`.
pub fn replace(v: &Vec<char>, from: char, to: char) -> (r: Vec<char>)
    ensures
        r@ == replaced(v@, from, to),
{
    let mut r: Vec<char> = Vec::new();
    let mut i: usize = 0;
    while i < v.len()
        invariant
            i <= v.len(),
            r@ == replaced(v@.take(i as int), from, to),
        decreases v.len() - i,
    {
        let c = v[i];
        r.push(if c == from { to } else { c });
        assert(r@ =~= replaced(v@.take(i + 1), from, to));
        i += 1;
    }
    assert(v@.take(v.len() as int) =~= v@);
    r
}

} // verus!

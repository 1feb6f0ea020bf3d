//! Character-level text helpers shared by the parser, the ranker and the catalog.
//!
//! Texts are handled as sequences of characters (`Seq<char>` in contracts,
//! `Vec<char>` at run time), so every position below counts characters, not bytes.

use vstd::prelude::*;

verus! {

/// Lower-cased form of a text, as `str::to_lowercase` computes it.
pub uninterp spec fn lower(s: Seq<char>) -> Seq<char>;

/// Whether a character counts as white space for `char::is_whitespace`.
pub uninterp spec fn is_whitespace(c: char) -> bool;

/// Calls `str::to_lowercase`. The Unicode lower-case mapping is not spelled out
/// here: the result is only named, as a function of the input text.
#[verifier::external_body]
pub(crate) fn to_lowercase(s: &str) -> (r: String)
    ensures
        r@ == lower(s@),
{
    s.to_lowercase()
}

/// Calls `char::is_whitespace`. Which characters carry the Unicode `White_Space`
/// property is not listed here: the answer is only named, per character.
#[verifier::external_body]
pub(crate) fn char_is_whitespace(c: char) -> (b: bool)
    ensures
        b == is_whitespace(c),
{
    c.is_whitespace()
}

/// Calls `String::push`: the character is appended at the end.
#[verifier::external_body]
pub(crate) fn push_char(s: &mut String, c: char)
    ensures
        final(s)@ == old(s)@.push(c),
{
    s.push(c)
}

/// The characters of `s`, in order.
pub fn chars_of(s: &str) -> (v: Vec<char>)
    ensures
        v@ == s@,
{
    let mut v: Vec<char> = Vec::new();
    for c in it: s.chars()
        invariant
            v@ == it.seq().take(it.index() as int),
            it.seq() == s@,
    {
        v.push(c);
    }
    v
}

/// The text made of the characters of `v`, in order.
pub fn string_of(v: &Vec<char>) -> (s: String)
    ensures
        s@ == v@,
{
    let mut s = String::new();
    let mut i: usize = 0;
    while i < v.len()
        invariant
            i <= v.len(),
            s@ == v@.take(i as int),
        decreases v.len() - i,
    {
        push_char(&mut s, v[i]);
        i = i + 1;
        assert(v@.take(i as int) == v@.take(i - 1).push(v@[i - 1]));
    }
    assert(v@.take(v.len() as int) == v@);
    s
}

/// The lower-cased characters of `s`.
pub fn lower_chars(s: &str) -> (v: Vec<char>)
    ensures
        v@ == lower(s@),
{
    let l = to_lowercase(s);
    chars_of(l.as_str())
}

/// `pat` stands in `s` at character position `i`.
pub open spec fn occurs_at(s: Seq<char>, pat: Seq<char>, i: int) -> bool {
    0 <= i && i + pat.len() <= s.len() && s.subrange(i, i + pat.len()) == pat
}

/// `pat` stands somewhere in `s`. The empty text stands in every text.
pub open spec fn contains_text(s: Seq<char>, pat: Seq<char>) -> bool {
    exists|i: int| occurs_at(s, pat, i)
}

/// Whether two texts hold the same characters.
pub fn seq_eq(a: &Vec<char>, b: &Vec<char>) -> (r: bool)
    ensures
        r == (a@ == b@),
{
    if a.len() != b.len() {
        return false;
    }
    let mut i: usize = 0;
    while i < a.len()
        invariant
            i <= a.len(),
            a.len() == b.len(),
            forall|j: int| 0 <= j < i ==> a@[j] == b@[j],
        decreases a.len() - i,
    {
        if a[i] != b[i] {
            return false;
        }
        i = i + 1;
    }
    assert(a@ =~= b@);
    true
}

/// Whether two texts hold the same characters.
pub fn text_eq(a: &str, b: &str) -> (r: bool)
    ensures
        r == (a@ == b@),
{
    let x = chars_of(a);
    let y = chars_of(b);
    seq_eq(&x, &y)
}

/// Whether `pat` stands in `s` at position `i`.
pub fn matches_at(s: &Vec<char>, pat: &Vec<char>, i: usize) -> (r: bool)
    ensures
        r == occurs_at(s@, pat@, i as int),
{
    if i > s.len() || pat.len() > s.len() - i {
        return false;
    }
    let mut k: usize = 0;
    while k < pat.len()
        invariant
            k <= pat.len(),
            i + pat.len() <= s.len(),
            forall|j: int| 0 <= j < k ==> s@[i + j] == pat@[j],
        decreases pat.len() - k,
    {
        if s[i + k] != pat[k] {
            assert(s@.subrange(i as int, i + pat.len())[k as int] == s@[i + k]);
            return false;
        }
        k = k + 1;
    }
    assert(s@.subrange(i as int, i + pat.len()) =~= pat@);
    true
}

/// Whether `s` begins with `pat`.
pub fn starts_with(s: &Vec<char>, pat: &Vec<char>) -> (r: bool)
    ensures
        r == pat@.is_prefix_of(s@),
{
    let r = matches_at(s, pat, 0);
    proof {
        if pat@.len() <= s@.len() {
            assert(s@.subrange(0, pat@.len() as int) == s@.subrange(0, 0int + pat@.len()));
        }
    }
    r
}

/// Whether `s` ends with `pat`.
pub fn ends_with(s: &Vec<char>, pat: &Vec<char>) -> (r: bool)
    ensures
        r == (pat@.len() <= s@.len() && s@.skip(s@.len() - pat@.len()) == pat@),
{
    if pat.len() > s.len() {
        return false;
    }
    let at = s.len() - pat.len();
    let r = matches_at(s, pat, at);
    assert(s@.skip(at as int) == s@.subrange(at as int, at + pat@.len()));
    r
}

/// Whether `pat` stands somewhere in `s`.
pub fn contains(s: &Vec<char>, pat: &Vec<char>) -> (r: bool)
    ensures
        r == contains_text(s@, pat@),
{
    if pat.len() > s.len() {
        return false;
    }
    if pat.len() == 0 {
        assert(s@.subrange(0, 0int + pat@.len()) =~= pat@);
        assert(occurs_at(s@, pat@, 0));
        return true;
    }
    let last = s.len() - pat.len();
    let mut i: usize = 0;
    while i <= last
        invariant
            i <= last + 1,
            last == s.len() - pat.len(),
            pat.len() > 0,
            forall|j: int| 0 <= j < i ==> !occurs_at(s@, pat@, j),
        decreases last + 1 - i,
    {
        if matches_at(s, pat, i) {
            return true;
        }
        i = i + 1;
    }
    false
}

/// Whether the character `c` occurs in `s`.
pub fn has_char(s: &Vec<char>, c: char) -> (r: bool)
    ensures
        r == s@.contains(c),
{
    let mut i: usize = 0;
    while i < s.len()
        invariant
            i <= s.len(),
            forall|j: int| 0 <= j < i ==> s@[j] != c,
        decreases s.len() - i,
    {
        if s[i] == c {
            return true;
        }
        i = i + 1;
    }
    false
}

/// The characters of `s` from position `from` up to, not including, `to`.
pub fn slice(s: &Vec<char>, from: usize, to: usize) -> (r: Vec<char>)
    requires
        from <= to <= s.len(),
    ensures
        r@ == s@.subrange(from as int, to as int),
{
    let mut r: Vec<char> = Vec::new();
    let mut i: usize = from;
    while i < to
        invariant
            from <= i <= to,
            to <= s.len(),
            r@ == s@.subrange(from as int, i as int),
        decreases to - i,
    {
        r.push(s[i]);
        i = i + 1;
        assert(s@.subrange(from as int, i as int) == s@.subrange(from as int, i - 1).push(
            s@[i - 1],
        ));
    }
    r
}

/// `s` without its leading white space.
pub open spec fn trim_start(s: Seq<char>) -> Seq<char>
    decreases s.len(),
{
    if s.len() > 0 && is_whitespace(s[0]) {
        trim_start(s.skip(1))
    } else {
        s
    }
}

/// `s` without its trailing white space.
pub open spec fn trim_end(s: Seq<char>) -> Seq<char>
    decreases s.len(),
{
    if s.len() > 0 && is_whitespace(s.last()) {
        trim_end(s.drop_last())
    } else {
        s
    }
}

/// `s` without leading and trailing white space, as `str::trim` gives it.
pub open spec fn trimmed(s: Seq<char>) -> Seq<char> {
    trim_end(trim_start(s))
}

/// What is left of a text after trimming is one contiguous piece of it.
pub proof fn lemma_trimmed_is_subrange(s: Seq<char>) -> (r: (int, int))
    ensures
        0 <= r.0 <= r.1 <= s.len(),
        trimmed(s) == s.subrange(r.0, r.1),
{
    let a = lemma_trim_start_is_skip(s);
    let t = trim_start(s);
    let e = lemma_trim_end_is_take(t);
    assert(t.take(e) == s.subrange(a, a + e));
    (a, a + e)
}

/// Trimming at the start drops some number of leading characters.
proof fn lemma_trim_start_is_skip(s: Seq<char>) -> (a: int)
    ensures
        0 <= a <= s.len(),
        trim_start(s) == s.skip(a),
    decreases s.len(),
{
    if s.len() > 0 && is_whitespace(s[0]) {
        let a = lemma_trim_start_is_skip(s.skip(1));
        assert(s.skip(1).skip(a) == s.skip(a + 1));
        a + 1
    } else {
        assert(s.skip(0) == s);
        0
    }
}

/// Trimming at the end keeps some number of leading characters.
proof fn lemma_trim_end_is_take(s: Seq<char>) -> (e: int)
    ensures
        0 <= e <= s.len(),
        trim_end(s) == s.take(e),
    decreases s.len(),
{
    if s.len() > 0 && is_whitespace(s.last()) {
        let e = lemma_trim_end_is_take(s.drop_last());
        assert(s.drop_last().take(e) == s.take(e));
        e
    } else {
        assert(s.take(s.len() as int) == s);
        s.len() as int
    }
}

/// `s` without leading and trailing white space.
pub fn trim(s: &Vec<char>) -> (r: Vec<char>)
    ensures
        r@ == trimmed(s@),
{
    let mut a: usize = 0;
    assert(s@.skip(0) == s@);
    while a < s.len() && char_is_whitespace(s[a])
        invariant
            a <= s.len(),
            trim_start(s@) == trim_start(s@.skip(a as int)),
        decreases s.len() - a,
    {
        assert(s@.skip(a as int).skip(1) == s@.skip(a + 1));
        a = a + 1;
    }
    let mut b: usize = s.len();
    assert(s@.skip(a as int) == s@.subrange(a as int, b as int));
    while b > a && char_is_whitespace(s[b - 1])
        invariant
            a <= b <= s.len(),
            trim_end(s@.skip(a as int)) == trim_end(s@.subrange(a as int, b as int)),
        decreases b - a,
    {
        assert(s@.subrange(a as int, b as int).drop_last() == s@.subrange(a as int, b - 1));
        b = b - 1;
    }
    slice(s, a, b)
}

/// The trimmed characters of `s`.
pub fn trim_text(s: &str) -> (r: Vec<char>)
    ensures
        r@ == trimmed(s@),
{
    let v = chars_of(s);
    trim(&v)
}

/// The first position of `c` in `s`, if it occurs.
pub open spec fn first_index(s: Seq<char>, c: char) -> Option<int>
    decreases s.len(),
{
    if s.len() == 0 {
        None
    } else if s[0] == c {
        Some(0)
    } else {
        match first_index(s.skip(1), c) {
            Some(i) => Some(i + 1),
            None => None,
        }
    }
}

/// `first_index` finds the least position that holds `c`, and misses only where
/// `c` does not occur.
pub proof fn lemma_first_index(s: Seq<char>, c: char)
    ensures
        match first_index(s, c) {
            Some(i) => 0 <= i < s.len() && s[i] == c && forall|j: int| 0 <= j < i ==> s[j] != c,
            None => forall|j: int| 0 <= j < s.len() ==> s[j] != c,
        },
    decreases s.len(),
{
    if s.len() > 0 && s[0] != c {
        lemma_first_index(s.skip(1), c);
        match first_index(s.skip(1), c) {
            Some(i) => {
                assert forall|j: int| 0 <= j < i + 1 implies s[j] != c by {
                    if j > 0 {
                        assert(s.skip(1)[j - 1] == s[j]);
                    }
                }
            },
            None => {
                assert forall|j: int| 0 <= j < s.len() implies s[j] != c by {
                    if j > 0 {
                        assert(s.skip(1)[j - 1] == s[j]);
                    }
                }
            },
        }
    }
}

/// The least position that satisfies what `lemma_first_index` states is the
/// one that `first_index` names.
pub proof fn lemma_first_index_is(s: Seq<char>, c: char, i: int)
    requires
        0 <= i <= s.len(),
        forall|j: int| 0 <= j < i ==> s[j] != c,
        i < s.len() ==> s[i] == c,
    ensures
        first_index(s, c) == if i < s.len() {
            Some(i)
        } else {
            None
        },
{
    lemma_first_index(s, c);
}

/// The first position of `c` in `s`, if it occurs.
pub fn find_char(s: &Vec<char>, c: char) -> (r: Option<usize>)
    ensures
        match r {
            Some(i) => first_index(s@, c) == Some(i as int),
            None => first_index(s@, c) is None,
        },
{
    let mut i: usize = 0;
    while i < s.len()
        invariant
            i <= s.len(),
            forall|j: int| 0 <= j < i ==> s@[j] != c,
        decreases s.len() - i,
    {
        if s[i] == c {
            proof {
                lemma_first_index_is(s@, c, i as int);
            }
            return Some(i);
        }
        i = i + 1;
    }
    proof {
        lemma_first_index_is(s@, c, i as int);
    }
    None
}

/// The pieces of `s` between occurrences of `sep`, as `str::split` yields them:
/// a text without `sep` is one piece, and two adjacent separators enclose an
/// empty piece.
pub open spec fn split_on(s: Seq<char>, sep: char) -> Seq<Seq<char>>
    decreases s.len(),
    via split_on_decreases
{
    match first_index(s, sep) {
        Some(i) => seq![s.take(i)] + split_on(s.skip(i + 1), sep),
        None => seq![s],
    }
}

/// What follows the first separator is shorter than the text.
#[via_fn]
proof fn split_on_decreases(s: Seq<char>, sep: char) {
    lemma_first_index(s, sep);
}

/// The views of a list of texts.
pub open spec fn views(v: Seq<Vec<char>>) -> Seq<Seq<char>> {
    v.map_values(|x: Vec<char>| x@)
}

/// The pieces of `s` between occurrences of `sep`.
pub fn split(s: &Vec<char>, sep: char) -> (r: Vec<Vec<char>>)
    ensures
        views(r@) == split_on(s@, sep),
{
    let mut r: Vec<Vec<char>> = Vec::new();
    let mut start: usize = 0;
    let mut i: usize = 0;
    assert(s@.skip(0) == s@);
    assert(views(r@) =~= Seq::<Seq<char>>::empty());
    while i < s.len()
        invariant
            start <= i <= s.len(),
            forall|j: int| start <= j < i ==> s@[j] != sep,
            views(r@) + split_on(s@.skip(start as int), sep) == split_on(s@, sep),
        decreases s.len() - i,
    {
        if s[i] == sep {
            let piece = slice(s, start, i);
            proof {
                let rest = s@.skip(start as int);
                lemma_first_index_is(rest, sep, i - start);
                assert(rest.take(i - start) == s@.subrange(start as int, i as int));
                assert(rest.skip(i - start + 1) == s@.skip(i + 1));
                assert(views(r@.push(piece)) == views(r@).push(piece@));
                assert(views(r@).push(piece@) + split_on(s@.skip(i + 1), sep) == views(r@) + (
                seq![piece@] + split_on(s@.skip(i + 1), sep)));
            }
            r.push(piece);
            start = i + 1;
        }
        i = i + 1;
    }
    let piece = slice(s, start, s.len());
    proof {
        let rest = s@.skip(start as int);
        lemma_first_index_is(rest, sep, rest.len() as int);
        assert(rest == s@.subrange(start as int, s@.len() as int));
        assert(views(r@.push(piece)) == views(r@).push(piece@));
        assert(views(r@).push(piece@) == views(r@) + seq![piece@]);
    }
    r.push(piece);
    r
}

/// `s` with every occurrence of `pat` taken out, scanning from the left and
/// resuming after each occurrence, as `str::replace(pat, "")` does. An empty
/// `pat` takes nothing out.
pub open spec fn remove_all(s: Seq<char>, pat: Seq<char>) -> Seq<char>
    decreases s.len(),
{
    if pat.len() == 0 || s.len() < pat.len() {
        s
    } else if pat.is_prefix_of(s) {
        remove_all(s.skip(pat.len() as int), pat)
    } else {
        seq![s[0]] + remove_all(s.skip(1), pat)
    }
}

/// Taking occurrences out never makes a text longer.
pub proof fn lemma_remove_all_len(s: Seq<char>, pat: Seq<char>)
    ensures
        remove_all(s, pat).len() <= s.len(),
    decreases s.len(),
{
    if pat.len() == 0 || s.len() < pat.len() {
    } else if pat.is_prefix_of(s) {
        lemma_remove_all_len(s.skip(pat.len() as int), pat);
    } else {
        lemma_remove_all_len(s.skip(1), pat);
    }
}

/// A text that keeps its length had no occurrence of `pat` in it, and is unchanged.
pub proof fn lemma_remove_all_same_len(s: Seq<char>, pat: Seq<char>)
    requires
        pat.len() > 0,
        remove_all(s, pat).len() == s.len(),
    ensures
        remove_all(s, pat) == s,
        !contains_text(s, pat),
    decreases s.len(),
{
    if s.len() < pat.len() {
    } else if pat.is_prefix_of(s) {
        lemma_remove_all_len(s.skip(pat.len() as int), pat);
    } else {
        let rest = s.skip(1);
        lemma_remove_all_same_len(rest, pat);
        assert(seq![s[0]] + rest == s);
        assert forall|i: int| !occurs_at(s, pat, i) by {
            if occurs_at(s, pat, i) {
                if i == 0 {
                    assert(s.subrange(0, 0int + pat.len()) == s.subrange(0, pat.len() as int));
                } else {
                    assert(rest.subrange(i - 1, i - 1 + pat.len()) == s.subrange(
                        i,
                        i + pat.len(),
                    ));
                    assert(occurs_at(rest, pat, i - 1));
                }
            }
        }
    }
}

/// `s` with every occurrence of `pat` taken out.
pub fn remove_occurrences(s: &Vec<char>, pat: &Vec<char>) -> (r: Vec<char>)
    ensures
        r@ == remove_all(s@, pat@),
{
    let mut r: Vec<char> = Vec::new();
    let mut i: usize = 0;
    assert(s@.skip(0) == s@);
    while i < s.len()
        invariant
            i <= s.len(),
            r@ + remove_all(s@.skip(i as int), pat@) == remove_all(s@, pat@),
        decreases s.len() - i,
    {
        let ghost rest = s@.skip(i as int);
        if pat.len() > 0 && matches_at(s, pat, i) {
            proof {
                assert(rest.subrange(0, pat@.len() as int) == s@.subrange(
                    i as int,
                    i + pat@.len(),
                ));
                assert(rest.skip(pat@.len() as int) == s@.skip(i + pat@.len()));
            }
            i = i + pat.len();
        } else {
            proof {
                if pat@.len() > 0 && rest.len() >= pat@.len() {
                    assert(rest.subrange(0, pat@.len() as int) == s@.subrange(
                        i as int,
                        i + pat@.len(),
                    ));
                    assert(rest.skip(1) == s@.skip(i + 1));
                    assert(r@.push(s@[i as int]) + remove_all(s@.skip(i + 1), pat@) == r@ + (
                    seq![rest[0]] + remove_all(rest.skip(1), pat@)));
                } else {
                    lemma_remove_all_short(rest, pat@);
                    lemma_remove_all_short(s@.skip(i + 1), pat@);
                    assert(r@.push(s@[i as int]) + s@.skip(i + 1) == r@ + rest);
                }
            }
            r.push(s[i]);
            i = i + 1;
        }
    }
    assert(r@ + Seq::<char>::empty() == r@);
    r
}

/// Nothing is taken out of a text that is shorter than the pattern.
proof fn lemma_remove_all_short(s: Seq<char>, pat: Seq<char>)
    requires
        pat.len() == 0 || s.len() < pat.len(),
    ensures
        remove_all(s, pat) == s,
{
}

/// An occurrence inside a piece of a text is an occurrence in the text.
pub proof fn lemma_contains_in_subrange(s: Seq<char>, pat: Seq<char>, a: int, b: int)
    requires
        0 <= a <= b <= s.len(),
        contains_text(s.subrange(a, b), pat),
    ensures
        contains_text(s, pat),
{
    let i = choose|i: int| occurs_at(s.subrange(a, b), pat, i);
    assert(s.subrange(a, b).subrange(i, i + pat.len()) == s.subrange(a + i, a + i + pat.len()));
    assert(occurs_at(s, pat, a + i));
}

} // verus!

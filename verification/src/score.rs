//! Search ranker: the score of one candidate name for a query, and the order
//! in which scored candidates are shown.

use crate::text::{chars_of, lower, starts_with, to_lowercase};
use vstd::prelude::*;

verus! {

/// Longest text, in characters, that is handed to the fuzzy matcher. The matcher
/// adds up its score in 32-bit arithmetic; below this length no sum can leave
/// that range.
pub const MAX_FUZZY_CHARS: usize = 1_000_000;

/// The score that the skim matcher (version 2, default settings) gives to
/// `choice` for `pattern`, or `None` where `pattern` is no subsequence of it.
pub uninterp spec fn skim_score(choice: Seq<char>, pattern: Seq<char>) -> Option<i64>;

/// The lower-case form of an upper-case ASCII letter, any other character as
/// it is.
pub open spec fn ascii_lower(c: char) -> char {
    if 'A' <= c <= 'Z' {
        ((c as int) + 32) as char
    } else {
        c
    }
}

/// Whether the matcher takes two characters for the same: letter by letter
/// where `exact` is set, with the case of ASCII letters aside otherwise.
pub open spec fn same_char(a: char, b: char, exact: bool) -> bool {
    if exact {
        a == b
    } else {
        ascii_lower(a) == ascii_lower(b)
    }
}

/// Whether `s` holds an upper-case ASCII letter.
pub open spec fn has_ascii_upper(s: Seq<char>) -> bool {
    exists|i: int| 0 <= i < s.len() && 'A' <= #[trigger] s[i] <= 'Z'
}

/// Whether the characters of `pattern` occur in `choice` in their order,
/// not necessarily side by side.
pub open spec fn is_subsequence(pattern: Seq<char>, choice: Seq<char>, exact: bool) -> bool
    decreases choice.len(),
{
    if pattern.len() == 0 {
        true
    } else if choice.len() == 0 {
        false
    } else if same_char(choice[0], pattern[0], exact) {
        is_subsequence(pattern.skip(1), choice.skip(1), exact)
    } else {
        is_subsequence(pattern, choice.skip(1), exact)
    }
}

/// Whether the matcher finds `pattern` in `choice`: as a subsequence, with
/// the case of ASCII letters aside unless the pattern holds an upper-case one.
pub open spec fn skim_matches(choice: Seq<char>, pattern: Seq<char>) -> bool {
    is_subsequence(pattern, choice, has_ascii_upper(pattern))
}

/// Calls `SkimMatcherV2::default().fuzzy_match(choice, pattern)` of the
/// `fuzzy-matcher` crate. The score depends on the two texts alone and is only
/// named here. Three things are claimed of it. There is a score exactly when
/// the matcher's first scan finds the pattern as a subsequence of the choice.
/// The empty pattern scores 0. And the matcher computes the score as a 32-bit
/// integer and widens it on return.
#[verifier::external_body]
pub(crate) fn skim_fuzzy_match(choice: &str, pattern: &str) -> (r: Option<i64>)
    requires
        choice@.len() <= MAX_FUZZY_CHARS,
        pattern@.len() <= MAX_FUZZY_CHARS,
    ensures
        r == skim_score(choice@, pattern@),
        r is Some <==> skim_matches(choice@, pattern@),
        pattern@.len() == 0 ==> r == Some(0i64),
        r matches Some(s) ==> i32::MIN <= s <= i32::MAX,
{
    fuzzy_matcher::FuzzyMatcher::fuzzy_match(
        &fuzzy_matcher::skim::SkimMatcherV2::default(),
        choice,
        pattern,
    )
}

/// The fuzzy score of a lower-cased name for a lower-cased query. Texts longer
/// than `MAX_FUZZY_CHARS` are never matched fuzzily.
pub open spec fn fuzzy_part(name_l: Seq<char>, query_l: Seq<char>) -> Option<i64> {
    if name_l.len() <= MAX_FUZZY_CHARS && query_l.len() <= MAX_FUZZY_CHARS {
        skim_score(name_l, query_l)
    } else {
        None
    }
}

/// The score of a lower-cased name for a non-empty lower-cased query, given what
/// the fuzzy matcher said: a name that begins with the query gets the highest
/// score there is, any other name gets the matcher's verdict.
pub open spec fn rank_score(name_l: Seq<char>, query_l: Seq<char>, fuzzy: Option<i64>) -> Option<
    i64,
> {
    if query_l.is_prefix_of(name_l) {
        Some(i64::MAX)
    } else {
        fuzzy
    }
}

/// The score of `name` for `query`: every name matches the empty query with the
/// neutral score 0; otherwise both are lower-cased and ranked by `rank_score`.
/// `None` means that the name is not shown at all.
pub open spec fn search_score(name: Seq<char>, query: Seq<char>) -> Option<i64> {
    if query.len() == 0 {
        Some(0)
    } else {
        rank_score(lower(name), lower(query), fuzzy_part(lower(name), lower(query)))
    }
}

/// Ranks a lower-cased name against a non-empty lower-cased query, given the
/// fuzzy matcher's verdict on the pair.
pub fn rank(name_l: &Vec<char>, query_l: &Vec<char>, fuzzy: Option<i64>) -> (r: Option<i64>)
    ensures
        r == rank_score(name_l@, query_l@, fuzzy),
{
    if starts_with(name_l, query_l) {
        Some(i64::MAX)
    } else {
        fuzzy
    }
}

/// A name that begins with the query outranks every name that does not, whatever
/// the fuzzy matcher said of either, as long as the matcher did not itself hand
/// out the highest score there is.
pub proof fn lemma_prefix_outranks_fuzzy(
    name_a: Seq<char>,
    name_b: Seq<char>,
    query_l: Seq<char>,
    fuzzy_a: Option<i64>,
    fuzzy_b: Option<i64>,
)
    requires
        query_l.is_prefix_of(name_a),
        !query_l.is_prefix_of(name_b),
        fuzzy_b matches Some(s) && s < i64::MAX,
    ensures
        rank_score(name_a, query_l, fuzzy_a) is Some,
        rank_score(name_b, query_l, fuzzy_b) is Some,
        rank_score(name_a, query_l, fuzzy_a)->0 > rank_score(name_b, query_l, fuzzy_b)->0,
{
}

/// The score of `name` for `query`.
///
/// With a non-empty query the result is the highest score exactly when the
/// lower-cased name begins with the lower-cased query; every other score comes
/// from the fuzzy matcher and fits in 32 bits, so it is strictly lower. A name
/// that does not begin with the query has a score exactly when the matcher
/// finds the lower-cased query in the lower-cased name and neither is longer
/// than `MAX_FUZZY_CHARS`.
pub fn matches_search(name: &str, query: &str) -> (r: Option<i64>)
    ensures
        r == search_score(name@, query@),
        query@.len() > 0 ==> (r == Some(i64::MAX) <==> lower(query@).is_prefix_of(lower(name@))),
        query@.len() > 0 && !lower(query@).is_prefix_of(lower(name@)) ==> (r matches Some(s)
            ==> i32::MIN <= s <= i32::MAX),
        query@.len() > 0 && !lower(query@).is_prefix_of(lower(name@)) ==> (r is Some <==> lower(
            name@,
        ).len() <= MAX_FUZZY_CHARS && lower(query@).len() <= MAX_FUZZY_CHARS && skim_matches(
            lower(name@),
            lower(query@),
        )),
{
    if query.is_empty() {
        return Some(0);
    }
    let name_l = to_lowercase(name);
    let query_l = to_lowercase(query);
    let nv = chars_of(name_l.as_str());
    let qv = chars_of(query_l.as_str());
    let fuzzy = if starts_with(&nv, &qv) {
        None
    } else if nv.len() <= MAX_FUZZY_CHARS && qv.len() <= MAX_FUZZY_CHARS {
        skim_fuzzy_match(name_l.as_str(), query_l.as_str())
    } else {
        None
    };
    rank(&nv, &qv, fuzzy)
}

/// Position `a` is shown before position `b`: its score is higher, or the
/// scores are equal and it came first.
pub open spec fn comes_before(scores: Seq<Option<i64>>, a: int, b: int) -> bool {
    scores[a]->0 > scores[b]->0 || (scores[a]->0 == scores[b]->0 && a < b)
}

/// `order` with position `p` put in: after every position whose score is at
/// least that of `p`, before the others.
pub open spec fn place(order: Seq<int>, scores: Seq<Option<i64>>, p: int) -> Seq<int>
    decreases order.len(),
{
    if order.len() == 0 {
        seq![p]
    } else if scores[order.last()]->0 >= scores[p]->0 {
        order.push(p)
    } else {
        place(order.drop_last(), scores, p).push(order.last())
    }
}

/// The positions below `n` that have a score, highest score first, equal
/// scores in input order.
pub open spec fn ranked_upto(scores: Seq<Option<i64>>, n: int) -> Seq<int>
    decreases n,
{
    if n <= 0 {
        Seq::empty()
    } else if scores[n - 1] is Some {
        place(ranked_upto(scores, n - 1), scores, n - 1)
    } else {
        ranked_upto(scores, n - 1)
    }
}

/// The positions that have a score, highest score first, equal scores in input
/// order: a stable sort by descending score of the candidates that matched.
pub open spec fn ranked(scores: Seq<Option<i64>>) -> Seq<int> {
    ranked_upto(scores, scores.len() as int)
}

/// `r` lists exactly the scored positions below `n`, each before all that it
/// `comes_before`.
pub open spec fn is_ranking(r: Seq<int>, scores: Seq<Option<i64>>, n: int) -> bool {
    &&& forall|i: int| 0 <= i < r.len() ==> 0 <= #[trigger] r[i] < n && scores[r[i]] is Some
    &&& forall|i: int, j: int|
        0 <= i < j < r.len() ==> comes_before(scores, #[trigger] r[i], #[trigger] r[j])
    &&& forall|p: int| 0 <= p < n && #[trigger] scores[p] is Some ==> r.contains(p)
}

/// `order`, sorted, stays sorted when `p` is put in, and gains `p` alone.
proof fn lemma_place(order: Seq<int>, scores: Seq<Option<i64>>, p: int)
    requires
        forall|i: int| 0 <= i < order.len() ==> #[trigger] order[i] < p,
        forall|i: int, j: int|
            0 <= i < j < order.len() ==> comes_before(
                scores,
                #[trigger] order[i],
                #[trigger] order[j],
            ),
    ensures
        place(order, scores, p).len() == order.len() + 1,
        forall|i: int, j: int|
            0 <= i < j < place(order, scores, p).len() ==> comes_before(
                scores,
                #[trigger] place(order, scores, p)[i],
                #[trigger] place(order, scores, p)[j],
            ),
        forall|x: int| #[trigger]
            place(order, scores, p).contains(x) <==> (order.contains(x) || x == p),
    decreases order.len(),
{
    let out = place(order, scores, p);
    if order.len() == 0 {
        assert(out[0] == p);
        assert forall|x: int| #[trigger] out.contains(x) <==> (order.contains(x) || x == p) by {
            if x == p {
                assert(out[0] == x);
            }
        }
    } else if scores[order.last()]->0 >= scores[p]->0 {
        let last = order.len() - 1;
        assert forall|i: int, j: int| 0 <= i < j < out.len() implies comes_before(
            scores,
            #[trigger] out[i],
            #[trigger] out[j],
        ) by {
            if j == order.len() {
                assert(out[i] == order[i]);
                if i < last {
                    assert(comes_before(scores, order[i], order[last]));
                }
            } else {
                assert(out[i] == order[i] && out[j] == order[j]);
            }
        }
        assert forall|x: int| #[trigger] out.contains(x) <==> (order.contains(x) || x == p) by {
            if x == p {
                assert(out[order.len() as int] == x);
            }
            if order.contains(x) {
                let k = choose|k: int| 0 <= k < order.len() && order[k] == x;
                assert(out[k] == x);
            }
            if out.contains(x) {
                let k = choose|k: int| 0 <= k < out.len() && out[k] == x;
                if k < order.len() {
                    assert(order[k] == x);
                }
            }
        }
    } else {
        let front = order.drop_last();
        let last = order.last();
        assert forall|i: int, j: int| 0 <= i < j < front.len() implies comes_before(
            scores,
            #[trigger] front[i],
            #[trigger] front[j],
        ) by {
            assert(front[i] == order[i] && front[j] == order[j]);
        }
        assert forall|i: int| 0 <= i < front.len() implies #[trigger] front[i] < p by {
            assert(front[i] == order[i]);
        }
        lemma_place(front, scores, p);
        let inner = place(front, scores, p);
        assert(out == inner.push(last));
        assert forall|i: int, j: int| 0 <= i < j < out.len() implies comes_before(
            scores,
            #[trigger] out[i],
            #[trigger] out[j],
        ) by {
            if j == inner.len() {
                assert(out[i] == inner[i]);
                assert(inner.contains(inner[i]));
                if inner[i] != p {
                    let k = choose|k: int| 0 <= k < front.len() && front[k] == inner[i];
                    assert(comes_before(scores, order[k], order[order.len() - 1]));
                }
            } else {
                assert(out[i] == inner[i] && out[j] == inner[j]);
            }
        }
        assert forall|x: int| #[trigger] out.contains(x) <==> (order.contains(x) || x == p) by {
            if out.contains(x) {
                let k = choose|k: int| 0 <= k < out.len() && out[k] == x;
                if k < inner.len() {
                    assert(inner[k] == x);
                    assert(inner.contains(x));
                    if x != p {
                        let m = choose|m: int| 0 <= m < front.len() && front[m] == x;
                        assert(order[m] == x);
                    }
                } else {
                    assert(order[order.len() - 1] == x);
                }
            }
            if order.contains(x) {
                let k = choose|k: int| 0 <= k < order.len() && order[k] == x;
                if k < front.len() {
                    assert(front[k] == x);
                    assert(front.contains(x));
                    assert(inner.contains(x));
                    let m = choose|m: int| 0 <= m < inner.len() && inner[m] == x;
                    assert(out[m] == x);
                } else {
                    assert(out[inner.len() as int] == x);
                }
            }
            if x == p {
                assert(inner.contains(p));
                let m = choose|m: int| 0 <= m < inner.len() && inner[m] == x;
                assert(out[m] == x);
            }
        }
    }
}

/// The order in which candidates are shown holds exactly the candidates that
/// matched, by descending score, and candidates of equal score keep their
/// input order.
pub proof fn lemma_ranked_upto(scores: Seq<Option<i64>>, n: int)
    requires
        0 <= n <= scores.len(),
    ensures
        is_ranking(ranked_upto(scores, n), scores, n),
    decreases n,
{
    if n > 0 {
        lemma_ranked_upto(scores, n - 1);
        let before = ranked_upto(scores, n - 1);
        let r = ranked_upto(scores, n);
        if scores[n - 1] is Some {
            lemma_place(before, scores, n - 1);
            assert forall|i: int| 0 <= i < r.len() implies 0 <= #[trigger] r[i] < n
                && scores[r[i]] is Some by {
                assert(r.contains(r[i]));
                if r[i] != n - 1 {
                    let k = choose|k: int| 0 <= k < before.len() && before[k] == r[i];
                }
            }
            assert forall|p: int| 0 <= p < n && #[trigger] scores[p] is Some implies r.contains(
                p,
            ) by {
                if p < n - 1 {
                    assert(before.contains(p));
                }
            }
        } else {
            assert forall|p: int| 0 <= p < n && #[trigger] scores[p] is Some implies r.contains(
                p,
            ) by {
                assert(p < n - 1);
            }
        }
    }
}

/// The order shown is the only list that `is_ranking` holds of.
pub proof fn lemma_ranking_unique(r: Seq<int>, scores: Seq<Option<i64>>)
    requires
        is_ranking(r, scores, scores.len() as int),
    ensures
        r == ranked(scores),
{
    let o = ranked(scores);
    lemma_ranked_upto(scores, scores.len() as int);
    let before = |x: int, y: int| comes_before(scores, x, y);
    assert forall|x: int| #[trigger] r.contains(x) <==> o.contains(x) by {
        if r.contains(x) {
            let k = choose|k: int| 0 <= k < r.len() && r[k] == x;
            assert(0 <= r[k] < scores.len() && scores[r[k]] is Some);
        }
        if o.contains(x) {
            let k = choose|k: int| 0 <= k < o.len() && o[k] == x;
            assert(0 <= o[k] < scores.len() && scores[o[k]] is Some);
        }
    }
    crate::order::lemma_sorted_lists_equal(r, o, before);
}

/// See `lemma_ranked_upto`: the same of the whole list.
pub proof fn lemma_ranked(scores: Seq<Option<i64>>)
    ensures
        is_ranking(ranked(scores), scores, scores.len() as int),
{
    lemma_ranked_upto(scores, scores.len() as int);
}

/// Where every candidate has the same score, the order shown is the input order.
pub proof fn lemma_ranked_neutral(scores: Seq<Option<i64>>, c: i64, n: int)
    requires
        0 <= n <= scores.len(),
        forall|p: int| 0 <= p < scores.len() ==> scores[p] == Some(c),
    ensures
        ranked_upto(scores, n) == Seq::new(n as nat, |i: int| i),
    decreases n,
{
    if n > 0 {
        lemma_ranked_neutral(scores, c, n - 1);
        let before = ranked_upto(scores, n - 1);
        if before.len() > 0 {
            assert(before.last() == n - 2);
        }
        assert(before.push(n - 1) =~= Seq::new(n as nat, |i: int| i));
    } else {
        assert(ranked_upto(scores, n) =~= Seq::new(n as nat, |i: int| i));
    }
}

/// The positions of a list as mathematical integers.
pub open spec fn ints(v: Seq<usize>) -> Seq<int> {
    v.map_values(|x: usize| x as int)
}

/// `place` puts `p` at position `at`, where `at` parts the scores that are at
/// least that of `p` from those below it.
proof fn lemma_place_at(order: Seq<int>, scores: Seq<Option<i64>>, p: int, at: int)
    requires
        0 <= at <= order.len(),
        forall|k: int| at <= k < order.len() ==> scores[#[trigger] order[k]]->0 < scores[p]->0,
        at > 0 ==> scores[order[at - 1]]->0 >= scores[p]->0,
    ensures
        place(order, scores, p) == order.insert(at, p),
    decreases order.len(),
{
    if order.len() == 0 {
        assert(order.insert(at, p) =~= seq![p]);
    } else if at == order.len() {
        assert(order.insert(at, p) =~= order.push(p));
    } else {
        assert(scores[order[order.len() - 1]]->0 < scores[p]->0);
        let front = order.drop_last();
        assert forall|k: int| at <= k < front.len() implies scores[#[trigger] front[k]]->0
            < scores[p]->0 by {
            assert(front[k] == order[k]);
        }
        if at > 0 {
            assert(front[at - 1] == order[at - 1]);
        }
        lemma_place_at(front, scores, p, at);
        assert(front.insert(at, p).push(order.last()) =~= order.insert(at, p));
    }
}

/// The score of the candidate that stands at place `k` of the order `r`.
fn score_at(scores: &Vec<Option<i64>>, r: &Vec<usize>, k: usize) -> (s: i64)
    requires
        k < r.len(),
        r@[k as int] < scores.len(),
        scores@[r@[k as int] as int] is Some,
    ensures
        s == scores@[r@[k as int] as int]->0,
{
    match scores[r[k]] {
        Some(s) => s,
        None => 0,
    }
}

/// The positions of `scores` that hold a score, highest first, equal scores in
/// input order.
pub fn rank_positions(scores: &Vec<Option<i64>>) -> (r: Vec<usize>)
    ensures
        ints(r@) == ranked(scores@),
        is_ranking(ints(r@), scores@, scores@.len() as int),
{
    let mut r: Vec<usize> = Vec::new();
    let mut n: usize = 0;
    assert(ints(r@) =~= ranked_upto(scores@, 0));
    while n < scores.len()
        invariant
            n <= scores.len(),
            ints(r@) == ranked_upto(scores@, n as int),
        decreases scores.len() - n,
    {
        proof {
            lemma_ranked_upto(scores@, n as int);
        }
        match scores[n] {
            Some(s) => {
                let mut at: usize = r.len();
                assert forall|k: int| 0 <= k < r.len() implies #[trigger] r@[k] < n
                    && scores@[r@[k] as int] is Some by {
                    assert(ints(r@)[k] == r@[k]);
                }
                while at > 0 && score_at(scores, &r, at - 1) < s
                    invariant
                        at <= r.len(),
                        n < scores.len(),
                        scores@[n as int] == Some(s),
                        forall|k: int|
                            0 <= k < r.len() ==> #[trigger] r@[k] < n && scores@[r@[k] as int] is Some,
                        forall|k: int| at <= k < r.len() ==> scores@[#[trigger] r@[k] as int]->0 < s,
                    decreases at,
                {
                    at = at - 1;
                }
                proof {
                    assert forall|k: int| at <= k < r.len() implies scores@[#[trigger] ints(
                        r@,
                    )[k]]->0 < scores@[n as int]->0 by {
                        assert(ints(r@)[k] == r@[k]);
                    }
                    if at > 0 {
                        assert(ints(r@)[at - 1] == r@[at - 1]);
                    }
                    lemma_place_at(ints(r@), scores@, n as int, at as int);
                    assert(ints(r@.insert(at as int, n)) =~= ints(r@).insert(at as int, n as int));
                }
                r.insert(at, n);
            },
            None => {},
        }
        n = n + 1;
    }
    proof {
        lemma_ranked(scores@);
    }
    r
}

} // verus!

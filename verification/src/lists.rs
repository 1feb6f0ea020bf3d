//! The lists that a session shows: which entries are candidates for a list,
//! and in which order the candidates that match the query appear.

use crate::catalog::entries;
use crate::desktop::texts;
use crate::entry::{AppEntry, AppEntryView};
use crate::score::{
    ints, is_ranking, lemma_ranked, matches_search, rank_positions, ranked, search_score,
};
use crate::text::{chars_of, seq_eq};
use vstd::prelude::*;

verus! {

/// The positions below `n` that `keep` holds of, in ascending order.
pub open spec fn indices_where(n: int, keep: spec_fn(int) -> bool) -> Seq<int>
    decreases n,
{
    if n <= 0 {
        Seq::empty()
    } else if keep(n - 1) {
        indices_where(n - 1, keep).push(n - 1)
    } else {
        indices_where(n - 1, keep)
    }
}

/// `indices_where` lists exactly the positions below `n` that `keep` holds
/// of, in strictly ascending order.
pub proof fn lemma_indices_where(n: int, keep: spec_fn(int) -> bool)
    requires
        0 <= n,
    ensures
        forall|k: int|
            0 <= k < indices_where(n, keep).len() ==> 0 <= #[trigger] indices_where(n, keep)[k]
                < n && keep(indices_where(n, keep)[k]),
        forall|k: int, m: int|
            0 <= k < m < indices_where(n, keep).len() ==> #[trigger] indices_where(n, keep)[k]
                < #[trigger] indices_where(n, keep)[m],
        forall|i: int| 0 <= i < n && keep(i) ==> #[trigger] indices_where(n, keep).contains(i),
        indices_where(n, keep).len() <= n,
    decreases n,
{
    if n > 0 {
        lemma_indices_where(n - 1, keep);
        let before = indices_where(n - 1, keep);
        let now = indices_where(n, keep);
        assert forall|i: int| 0 <= i < n && keep(i) implies #[trigger] now.contains(i) by {
            if i < n - 1 {
                assert(before.contains(i));
                let k = choose|k: int| 0 <= k < before.len() && before[k] == i;
                assert(now[k] == i);
            } else {
                assert(now[now.len() - 1] == i);
            }
        }
    }
}

/// The first position below `n` of an entry named `name`.
pub open spec fn first_named(apps: Seq<AppEntryView>, name: Seq<char>, n: int) -> Option<int>
    decreases n,
{
    if n <= 0 {
        None
    } else {
        match first_named(apps, name, n - 1) {
            Some(i) => Some(i),
            None => if apps[n - 1].name == name {
                Some(n - 1)
            } else {
                None
            },
        }
    }
}

/// `first_named` finds the least position that bears the name, and misses
/// only where no entry below `n` bears it.
pub proof fn lemma_first_named(apps: Seq<AppEntryView>, name: Seq<char>, n: int)
    requires
        0 <= n <= apps.len(),
    ensures
        match first_named(apps, name, n) {
            Some(i) => 0 <= i < n && apps[i].name == name && forall|j: int|
                0 <= j < i ==> (#[trigger] apps[j]).name != name,
            None => forall|j: int| 0 <= j < n ==> (#[trigger] apps[j]).name != name,
        },
    decreases n,
{
    if n > 0 {
        lemma_first_named(apps, name, n - 1);
    }
}

/// For each recent name, in order, the first entry that bears it; names that
/// no entry bears are passed over.
pub open spec fn live_recent(apps: Seq<AppEntryView>, recent: Seq<Seq<char>>) -> Seq<int>
    decreases recent.len(),
{
    if recent.len() == 0 {
        Seq::empty()
    } else {
        match first_named(apps, recent.last(), apps.len() as int) {
            Some(i) => live_recent(apps, recent.drop_last()).push(i),
            None => live_recent(apps, recent.drop_last()),
        }
    }
}

/// Every position that `live_recent` lists is the position of an entry whose
/// name is a recent one.
pub proof fn lemma_live_recent(apps: Seq<AppEntryView>, recent: Seq<Seq<char>>)
    ensures
        forall|k: int|
            0 <= k < live_recent(apps, recent).len() ==> 0 <= #[trigger] live_recent(
                apps,
                recent,
            )[k] < apps.len() && recent.contains(apps[live_recent(apps, recent)[k]].name),
        live_recent(apps, recent).len() <= recent.len(),
    decreases recent.len(),
{
    if recent.len() > 0 {
        let front = recent.drop_last();
        lemma_live_recent(apps, front);
        lemma_first_named(apps, recent.last(), apps.len() as int);
        let now = live_recent(apps, recent);
        assert forall|k: int| 0 <= k < now.len() implies 0 <= #[trigger] now[k] < apps.len()
            && recent.contains(apps[now[k]].name) by {
            if k < live_recent(apps, front).len() {
                let name = apps[live_recent(apps, front)[k]].name;
                assert(front.contains(name));
                let w = choose|w: int| 0 <= w < front.len() && front[w] == name;
                assert(recent[w] == name);
            } else {
                assert(recent[recent.len() - 1] == recent.last());
            }
        }
    }
}

/// Whether the entry at position `i` falls under `label`.
pub open spec fn falls_under(apps: Seq<AppEntryView>, label: Seq<char>) -> spec_fn(int) -> bool {
    |i: int| apps[i].category == label
}

/// Whether the name of the entry at position `i` is none of the recent ones.
pub open spec fn is_not_recent(apps: Seq<AppEntryView>, recent: Seq<Seq<char>>) -> spec_fn(
    int,
) -> bool {
    |i: int| !recent.contains(apps[i].name)
}

/// The positions of the entries of a category, in catalog order.
pub open spec fn in_category(apps: Seq<AppEntryView>, label: Seq<char>) -> Seq<int> {
    indices_where(apps.len() as int, falls_under(apps, label))
}

/// The recent entries first, most recent first, then every entry whose name
/// is not a recent one, in catalog order.
pub open spec fn recent_first(apps: Seq<AppEntryView>, recent: Seq<Seq<char>>) -> Seq<int> {
    live_recent(apps, recent) + indices_where(apps.len() as int, is_not_recent(apps, recent))
}

/// Every position below `n`, in ascending order.
pub open spec fn all_positions(n: int) -> Seq<int> {
    Seq::new(n as nat, |i: int| i)
}

/// The scores of the candidates for the query.
pub open spec fn scores_of(apps: Seq<AppEntryView>, cands: Seq<int>, query: Seq<char>) -> Seq<
    Option<i64>,
> {
    cands.map_values(|i: int| search_score(apps[i].name, query))
}

/// The candidates that match the query, best score first, equal scores in
/// candidate order.
pub open spec fn shown(apps: Seq<AppEntryView>, cands: Seq<int>, query: Seq<char>) -> Seq<int> {
    ranked(scores_of(apps, cands, query)).map_values(|p: int| cands[p])
}

/// Whether some candidate matches the query.
pub open spec fn any_match(apps: Seq<AppEntryView>, cands: Seq<int>, query: Seq<char>) -> bool {
    exists|p: int| 0 <= p < cands.len() && (#[trigger] scores_of(apps, cands, query)[p]) is Some
}

/// A list shows something exactly when one of its candidates matches;
/// whatever it shows is a candidate that matches; and no entry is shown
/// before an entry of higher score.
pub proof fn lemma_shown(apps: Seq<AppEntryView>, cands: Seq<int>, query: Seq<char>)
    ensures
        shown(apps, cands, query).len() > 0 <==> any_match(apps, cands, query),
        shown(apps, cands, query).len() <= cands.len(),
        forall|k: int, m: int|
            0 <= k < m < shown(apps, cands, query).len() ==> search_score(
                apps[#[trigger] shown(apps, cands, query)[k]].name,
                query,
            )->0 >= search_score(apps[#[trigger] shown(apps, cands, query)[m]].name, query)->0,
        forall|k: int|
            0 <= k < shown(apps, cands, query).len() ==> cands.contains(
                #[trigger] shown(apps, cands, query)[k],
            ) && search_score(apps[shown(apps, cands, query)[k]].name, query) is Some,
{
    let scores = scores_of(apps, cands, query);
    let r = ranked(scores);
    lemma_ranked(scores);
    lemma_ranking_len(r, scores);
    if r.len() > 0 {
        assert(scores[r[0]] is Some);
    }
    if any_match(apps, cands, query) {
        let p = choose|p: int| 0 <= p < cands.len() && (#[trigger] scores[p]) is Some;
        assert(r.contains(p));
    }
    assert forall|k: int| 0 <= k < shown(apps, cands, query).len() implies cands.contains(
        #[trigger] shown(apps, cands, query)[k],
    ) && search_score(apps[shown(apps, cands, query)[k]].name, query) is Some by {
        assert(scores[r[k]] is Some);
        assert(cands[r[k]] == shown(apps, cands, query)[k]);
    }
    assert forall|k: int, m: int| 0 <= k < m < shown(apps, cands, query).len() implies search_score(
        apps[#[trigger] shown(apps, cands, query)[k]].name,
        query,
    )->0 >= search_score(apps[#[trigger] shown(apps, cands, query)[m]].name, query)->0 by {
        assert(crate::score::comes_before(scores, r[k], r[m]));
        assert(0 <= r[k] < cands.len() && 0 <= r[m] < cands.len());
    }
}

/// With the empty query a list shows its candidates as they are.
pub proof fn lemma_shown_without_query(apps: Seq<AppEntryView>, cands: Seq<int>, query: Seq<char>)
    requires
        query.len() == 0,
    ensures
        shown(apps, cands, query) == cands,
{
    let scores = scores_of(apps, cands, query);
    crate::score::lemma_ranked_neutral(scores, 0, scores.len() as int);
    assert(shown(apps, cands, query) =~= cands);
}

/// A ranking is no longer than the list that it ranks.
pub proof fn lemma_ranking_len(r: Seq<int>, scores: Seq<Option<i64>>)
    requires
        is_ranking(r, scores, scores.len() as int),
    ensures
        r.len() <= scores.len(),
{
    assert forall|i: int, j: int| 0 <= i < j < r.len() implies r[i] != r[j] by {
        assert(crate::score::comes_before(scores, r[i], r[j]));
    }
    assert(r.no_duplicates());
    let s = r.to_set();
    let all = Set::new(|p: int| 0 <= p < scores.len());
    assert(all =~= vstd::set_lib::set_int_range(0, scores.len() as int));
    vstd::set_lib::lemma_int_range(0, scores.len() as int);
    assert(s.subset_of(all)) by {
        assert forall|x: int| s.contains(x) implies all.contains(x) by {
            let k = choose|k: int| 0 <= k < r.len() && r[k] == x;
        }
    }
    vstd::set_lib::lemma_len_subset(s, all);
    r.unique_seq_to_set();
}

/// The first entry that bears the name.
pub fn find_named(apps: &Vec<AppEntry>, name: &str) -> (r: Option<usize>)
    ensures
        match r {
            Some(i) => first_named(entries(apps@), name@, apps@.len() as int) == Some(i as int)
                && i < apps@.len(),
            None => first_named(entries(apps@), name@, apps@.len() as int) is None,
        },
{
    let wanted = chars_of(name);
    let mut i: usize = 0;
    while i < apps.len()
        invariant
            i <= apps.len(),
            wanted@ == name@,
            first_named(entries(apps@), name@, i as int) is None,
        decreases apps.len() - i,
    {
        let n = chars_of(apps[i].name.as_str());
        assert(entries(apps@)[i as int].name == apps@[i as int].name@);
        if seq_eq(&n, &wanted) {
            proof {
                lemma_first_named_stays(entries(apps@), name@, i + 1, apps@.len() as int);
            }
            return Some(i);
        }
        i = i + 1;
    }
    None
}

/// Once an entry of the name is found, looking further finds the same entry.
proof fn lemma_first_named_stays(apps: Seq<AppEntryView>, name: Seq<char>, n: int, m: int)
    requires
        0 <= n <= m,
        first_named(apps, name, n) is Some,
    ensures
        first_named(apps, name, m) == first_named(apps, name, n),
    decreases m - n,
{
    if n < m {
        lemma_first_named_stays(apps, name, n, m - 1);
    }
}

/// For each recent name, in order, the first entry that bears it.
pub fn live_recent_indices(apps: &Vec<AppEntry>, recent: &Vec<String>) -> (r: Vec<usize>)
    ensures
        ints(r@) == live_recent(entries(apps@), texts(recent@)),
        forall|k: int| 0 <= k < r@.len() ==> #[trigger] r@[k] < apps@.len(),
{
    let mut r: Vec<usize> = Vec::new();
    let mut i: usize = 0;
    assert(texts(recent@).take(0) =~= Seq::<Seq<char>>::empty());
    assert(ints(r@) =~= Seq::<int>::empty());
    while i < recent.len()
        invariant
            i <= recent.len(),
            ints(r@) == live_recent(entries(apps@), texts(recent@).take(i as int)),
            forall|k: int| 0 <= k < r@.len() ==> #[trigger] r@[k] < apps@.len(),
        decreases recent.len() - i,
    {
        proof {
            let upto = texts(recent@).take(i + 1);
            assert(upto.drop_last() == texts(recent@).take(i as int));
            assert(upto.last() == recent@[i as int]@);
        }
        match find_named(apps, recent[i].as_str()) {
            Some(at) => {
                assert(ints(r@.push(at)) =~= ints(r@).push(at as int));
                r.push(at);
            },
            None => {},
        }
        i = i + 1;
    }
    assert(texts(recent@).take(recent@.len() as int) == texts(recent@));
    r
}

/// The positions of the entries of a category, in catalog order.
pub fn category_indices(apps: &Vec<AppEntry>, label: &str) -> (r: Vec<usize>)
    ensures
        ints(r@) == in_category(entries(apps@), label@),
        forall|k: int| 0 <= k < r@.len() ==> #[trigger] r@[k] < apps@.len(),
{
    let wanted = chars_of(label);
    let ghost keep = falls_under(entries(apps@), label@);
    let mut r: Vec<usize> = Vec::new();
    let mut i: usize = 0;
    assert(ints(r@) =~= Seq::<int>::empty());
    while i < apps.len()
        invariant
            i <= apps.len(),
            wanted@ == label@,
            keep == falls_under(entries(apps@), label@),
            ints(r@) == indices_where(i as int, keep),
            forall|k: int| 0 <= k < r@.len() ==> #[trigger] r@[k] < apps@.len(),
        decreases apps.len() - i,
    {
        let c = chars_of(apps[i].category.as_str());
        assert(entries(apps@)[i as int].category == apps@[i as int].category@);
        if seq_eq(&c, &wanted) {
            assert(ints(r@.push(i)) =~= ints(r@).push(i as int));
            r.push(i);
        }
        i = i + 1;
    }
    r
}

/// The positions of the entries whose name is not a recent one, in catalog order.
pub fn not_recent_indices(apps: &Vec<AppEntry>, recent: &Vec<String>) -> (r: Vec<usize>)
    ensures
        ints(r@) == indices_where(
            apps@.len() as int,
            is_not_recent(entries(apps@), texts(recent@)),
        ),
        forall|k: int| 0 <= k < r@.len() ==> #[trigger] r@[k] < apps@.len(),
{
    let ghost keep = is_not_recent(entries(apps@), texts(recent@));
    let mut r: Vec<usize> = Vec::new();
    let mut i: usize = 0;
    assert(ints(r@) =~= Seq::<int>::empty());
    while i < apps.len()
        invariant
            i <= apps.len(),
            keep == is_not_recent(entries(apps@), texts(recent@)),
            ints(r@) == indices_where(i as int, keep),
            forall|k: int| 0 <= k < r@.len() ==> #[trigger] r@[k] < apps@.len(),
        decreases apps.len() - i,
    {
        let n = chars_of(apps[i].name.as_str());
        assert(entries(apps@)[i as int].name == apps@[i as int].name@);
        if !crate::desktop::is_listed(recent, &n) {
            assert(ints(r@.push(i)) =~= ints(r@).push(i as int));
            r.push(i);
        }
        i = i + 1;
    }
    r
}

/// Every position below `n`.
pub fn all_indices(n: usize) -> (r: Vec<usize>)
    ensures
        ints(r@) == all_positions(n as int),
        forall|k: int| 0 <= k < r@.len() ==> #[trigger] r@[k] < n,
{
    let mut r: Vec<usize> = Vec::new();
    let mut i: usize = 0;
    while i < n
        invariant
            i <= n,
            r@.len() == i,
            forall|k: int| 0 <= k < i ==> #[trigger] r@[k] == k,
        decreases n - i,
    {
        r.push(i);
        i = i + 1;
    }
    assert(ints(r@) =~= all_positions(n as int));
    r
}

/// The scores of the candidates for the query.
pub fn score_candidates(apps: &Vec<AppEntry>, cands: &Vec<usize>, query: &str) -> (r: Vec<
    Option<i64>,
>)
    requires
        forall|k: int| 0 <= k < cands@.len() ==> #[trigger] cands@[k] < apps@.len(),
    ensures
        r@ == scores_of(entries(apps@), ints(cands@), query@),
{
    let mut r: Vec<Option<i64>> = Vec::new();
    let mut i: usize = 0;
    while i < cands.len()
        invariant
            i <= cands.len(),
            r@.len() == i,
            forall|k: int| 0 <= k < cands@.len() ==> #[trigger] cands@[k] < apps@.len(),
            forall|k: int|
                0 <= k < i ==> #[trigger] r@[k] == search_score(
                    apps@[cands@[k] as int]@.name,
                    query@,
                ),
        decreases cands.len() - i,
    {
        r.push(matches_search(apps[cands[i]].name.as_str(), query));
        i = i + 1;
    }
    assert(r@ =~= scores_of(entries(apps@), ints(cands@), query@));
    r
}

/// The candidates that match the query, best score first, equal scores in
/// candidate order. With the empty query these are the candidates as they are.
pub fn rank_candidates(apps: &Vec<AppEntry>, cands: &Vec<usize>, query: &str) -> (r: Vec<usize>)
    requires
        forall|k: int| 0 <= k < cands@.len() ==> #[trigger] cands@[k] < apps@.len(),
    ensures
        ints(r@) == shown(entries(apps@), ints(cands@), query@),
        forall|k: int| 0 <= k < r@.len() ==> #[trigger] r@[k] < apps@.len(),
        query@.len() == 0 ==> ints(r@) == ints(cands@),
{
    proof {
        if query@.len() == 0 {
            lemma_shown_without_query(entries(apps@), ints(cands@), query@);
        }
    }
    let scores = score_candidates(apps, cands, query);
    let order = rank_positions(&scores);
    let mut r: Vec<usize> = Vec::new();
    let mut i: usize = 0;
    assert forall|k: int| 0 <= k < order@.len() implies #[trigger] order@[k] < cands@.len() by {
        assert(ints(order@)[k] == order@[k]);
    }
    while i < order.len()
        invariant
            i <= order.len(),
            r@.len() == i,
            forall|k: int| 0 <= k < order@.len() ==> #[trigger] order@[k] < cands@.len(),
            forall|k: int| 0 <= k < cands@.len() ==> #[trigger] cands@[k] < apps@.len(),
            forall|k: int| 0 <= k < i ==> #[trigger] r@[k] == cands@[order@[k] as int],
        decreases order.len() - i,
    {
        r.push(cands[order[i]]);
        i = i + 1;
    }
    assert(ints(r@) =~= shown(entries(apps@), ints(cands@), query@)) by {
        let o = ranked(scores@);
        assert(o == ints(order@));
        assert forall|k: int| 0 <= k < r@.len() implies ints(r@)[k] == shown(
            entries(apps@),
            ints(cands@),
            query@,
        )[k] by {
            assert(o[k] == order@[k] as int);
            assert(ints(cands@)[o[k]] == cands@[order@[k] as int]);
        }
    }
    r
}

/// Whether some candidate matches the query.
pub fn any_candidate_matches(apps: &Vec<AppEntry>, cands: &Vec<usize>, query: &str) -> (r: bool)
    requires
        forall|k: int| 0 <= k < cands@.len() ==> #[trigger] cands@[k] < apps@.len(),
    ensures
        r == any_match(entries(apps@), ints(cands@), query@),
        r == (shown(entries(apps@), ints(cands@), query@).len() > 0),
{
    let ghost scores = scores_of(entries(apps@), ints(cands@), query@);
    let mut i: usize = 0;
    while i < cands.len()
        invariant
            i <= cands.len(),
            scores == scores_of(entries(apps@), ints(cands@), query@),
            forall|k: int| 0 <= k < cands@.len() ==> #[trigger] cands@[k] < apps@.len(),
            forall|k: int| 0 <= k < i ==> (#[trigger] scores[k]) is None,
        decreases cands.len() - i,
    {
        let s = matches_search(apps[cands[i]].name.as_str(), query);
        assert(scores[i as int] == search_score(entries(apps@)[ints(cands@)[i as int]].name, query@));
        if s.is_some() {
            proof {
                lemma_shown(entries(apps@), ints(cands@), query@);
            }
            return true;
        }
        i = i + 1;
    }
    proof {
        lemma_shown(entries(apps@), ints(cands@), query@);
    }
    false
}

} // verus!

//! Recency store: the names of the entries launched last, most recent first,
//! and the document in which the list is kept between sessions.

use crate::desktop::texts;
use vstd::prelude::*;

verus! {

/// The error type of `serde_json`; nothing is known of its values.
#[verifier::external_type_specification]
#[verifier::external_body]
pub struct ExJsonError(serde_json::Error);

/// The JSON document that `serde_json::to_string_pretty` writes for a list of
/// names, or `None` where it reports an error.
pub uninterp spec fn json_of_names(names: Seq<Seq<char>>) -> Option<Seq<char>>;

/// The list of names that `serde_json::from_str` reads from a text, or `None`
/// where the text is no JSON array of strings.
pub uninterp spec fn names_of_json(text: Seq<char>) -> Option<Seq<Seq<char>>>;

/// Calls `serde_json::to_string_pretty` on a list of names. The document
/// depends on the names alone and is only named here.
#[verifier::external_body]
pub(crate) fn json_encode(names: &Vec<String>) -> (r: Result<String, serde_json::Error>)
    ensures
        match r {
            Ok(s) => json_of_names(texts(names@)) == Some(s@),
            Err(_) => json_of_names(texts(names@)) is None,
        },
{
    serde_json::to_string_pretty(names)
}

/// Calls `serde_json::from_str` for a list of names. The list depends on the
/// text alone and is only named here.
#[verifier::external_body]
pub(crate) fn json_decode(text: &str) -> (r: Result<Vec<String>, serde_json::Error>)
    ensures
        match r {
            Ok(v) => names_of_json(text@) == Some(texts(v@)),
            Err(_) => names_of_json(text@) is None,
        },
{
    serde_json::from_str(text)
}

/// The document in which a list of names is kept, if it can be written.
pub fn encode_names(names: &Vec<String>) -> (r: Option<String>)
    ensures
        crate::desktop::opt_text(r) == json_of_names(texts(names@)),
{
    match json_encode(names) {
        Ok(s) => Some(s),
        Err(_) => None,
    }
}

/// The list of names that a document holds. A text that is no such document
/// stands for the empty list.
pub open spec fn decoded_names(text: Seq<char>) -> Seq<Seq<char>> {
    match names_of_json(text) {
        Some(names) => names,
        None => Seq::empty(),
    }
}

/// The list of names that a document holds; the empty list where the text is
/// no such document.
pub fn decode_names(text: &str) -> (r: Vec<String>)
    ensures
        texts(r@) == decoded_names(text@),
{
    match json_decode(text) {
        Ok(v) => v,
        Err(_) => {
            let v: Vec<String> = Vec::new();
            assert(texts(v@) =~= Seq::<Seq<char>>::empty());
            v
        },
    }
}

/// `list` without any occurrence of `name`.
pub open spec fn without(list: Seq<Seq<char>>, name: Seq<char>) -> Seq<Seq<char>>
    decreases list.len(),
{
    if list.len() == 0 {
        Seq::empty()
    } else if list.last() == name {
        without(list.drop_last(), name)
    } else {
        without(list.drop_last(), name).push(list.last())
    }
}

/// The list after `name` was launched: `name` in front, then the other names
/// in their old order, cut down to the first `max` names.
pub open spec fn recorded(list: Seq<Seq<char>>, name: Seq<char>, max: int) -> Seq<Seq<char>> {
    let full = seq![name] + without(list, name);
    if full.len() > max {
        full.take(max)
    } else {
        full
    }
}

/// `without` keeps the other names in order: it holds no `name`, is no longer
/// than the list, holds only names of the list, and leaves a list without
/// `name` as it is.
pub proof fn lemma_without(list: Seq<Seq<char>>, name: Seq<char>)
    ensures
        !without(list, name).contains(name),
        without(list, name).len() <= list.len(),
        forall|x: Seq<char>| #[trigger]
            without(list, name).contains(x) <==> (list.contains(x) && x != name),
        !list.contains(name) ==> without(list, name) == list,
        list.no_duplicates() ==> without(list, name).no_duplicates(),
    decreases list.len(),
{
    let out = without(list, name);
    if list.len() > 0 {
        let front = list.drop_last();
        let inner = without(front, name);
        lemma_without(front, name);
        assert forall|x: Seq<char>| #[trigger] out.contains(x) implies list.contains(x) && x
            != name by {
            let k = choose|k: int| 0 <= k < out.len() && out[k] == x;
            if k < inner.len() {
                assert(inner[k] == x);
                assert(inner.contains(x));
                assert(front.contains(x));
                let m = choose|m: int| 0 <= m < front.len() && front[m] == x;
                assert(list[m] == x);
            } else {
                assert(list[list.len() - 1] == x);
            }
        }
        assert forall|x: Seq<char>| list.contains(x) && x != name implies #[trigger] out.contains(
            x,
        ) by {
            let m = choose|m: int| 0 <= m < list.len() && list[m] == x;
            if m < front.len() {
                assert(front[m] == x);
                assert(front.contains(x));
                assert(inner.contains(x));
                let k = choose|k: int| 0 <= k < inner.len() && inner[k] == x;
                assert(out[k] == inner[k]);
            } else {
                assert(list.last() == x);
                assert(out == inner.push(x));
                assert(out[out.len() - 1] == x);
            }
        }
        if !list.contains(name) {
            assert(list[list.len() - 1] != name);
            assert(!front.contains(name)) by {
                if front.contains(name) {
                    let m = choose|m: int| 0 <= m < front.len() && front[m] == name;
                    assert(list[m] == name);
                }
            }
            assert(front.push(list.last()) =~= list);
        }
        if list.no_duplicates() {
            assert(front.no_duplicates());
            if list.last() != name {
                assert forall|i: int, j: int| 0 <= i < out.len() && 0 <= j < out.len() && i
                    != j implies out[i] != out[j] by {
                    if i == inner.len() || j == inner.len() {
                        let other = if i == inner.len() {
                            j
                        } else {
                            i
                        };
                        assert(inner.contains(inner[other]));
                        let m = choose|m: int| 0 <= m < front.len() && front[m] == inner[other];
                        assert(list[m] != list[list.len() - 1]);
                    }
                }
            }
        }
    }
}

/// Launching the same name twice leaves the list as one launch left it.
pub proof fn lemma_recorded_idempotent(list: Seq<Seq<char>>, name: Seq<char>, max: int)
    requires
        0 <= max,
    ensures
        recorded(recorded(list, name, max), name, max) == recorded(list, name, max),
{
    let w = without(list, name);
    let once = recorded(list, name, max);
    lemma_without(list, name);
    if max == 0 {
        assert(once =~= Seq::<Seq<char>>::empty());
        assert(without(once, name) =~= Seq::<Seq<char>>::empty());
        assert((seq![name] + without(once, name)).take(0) =~= Seq::<Seq<char>>::empty());
    } else {
        let rest = once.skip(1);
        assert(once[0] == name);
        assert(once =~= seq![name] + rest);
        assert(!rest.contains(name)) by {
            if rest.contains(name) {
                let k = choose|k: int| 0 <= k < rest.len() && rest[k] == name;
                assert(w[k] == name);
            }
        }
        lemma_without_front(rest, name);
        lemma_without(rest, name);
    }
}

/// A name in front of a list that does not hold it is all that `without`
/// takes away.
proof fn lemma_without_front(rest: Seq<Seq<char>>, name: Seq<char>)
    requires
        !rest.contains(name),
    ensures
        without(seq![name] + rest, name) == rest,
    decreases rest.len(),
{
    let list = seq![name] + rest;
    if rest.len() == 0 {
        assert(list.drop_last() =~= Seq::<Seq<char>>::empty());
        assert(without(list.drop_last(), name) =~= Seq::<Seq<char>>::empty());
    } else {
        let front = rest.drop_last();
        assert(list.drop_last() =~= seq![name] + front);
        assert(list.last() == rest[rest.len() - 1]);
        assert(!front.contains(name)) by {
            if front.contains(name) {
                let k = choose|k: int| 0 <= k < front.len() && front[k] == name;
                assert(rest[k] == name);
            }
        }
        lemma_without_front(front, name);
        assert(front.push(rest.last()) =~= rest);
    }
}

/// After a launch the name stands in front and nowhere else, as long as the
/// list may hold one name at least. The list is never longer than `max`, and a
/// list without repeated names stays so.
pub proof fn lemma_recorded_front(list: Seq<Seq<char>>, name: Seq<char>, max: int)
    requires
        0 <= max,
    ensures
        recorded(list, name, max).len() <= max,
        max >= 1 ==> recorded(list, name, max).len() >= 1 && recorded(list, name, max)[0] == name,
        forall|i: int| 1 <= i < recorded(list, name, max).len() ==> recorded(list, name, max)[i] != name,
        list.no_duplicates() ==> recorded(list, name, max).no_duplicates(),
{
    let w = without(list, name);
    let out = recorded(list, name, max);
    let full = seq![name] + w;
    lemma_without(list, name);
    assert forall|i: int| 1 <= i < out.len() implies out[i] != name by {
        assert(out[i] == w[i - 1]);
        assert(w.contains(w[i - 1]));
    }
    if list.no_duplicates() {
        assert forall|i: int, j: int| 0 <= i < full.len() && 0 <= j < full.len() && i
            != j implies full[i] != full[j] by {
            if i == 0 {
                assert(w.contains(w[j - 1]));
            } else if j == 0 {
                assert(w.contains(w[i - 1]));
            } else {
                assert(full[i] == w[i - 1] && full[j] == w[j - 1]);
            }
        }
        assert forall|i: int, j: int| 0 <= i < out.len() && 0 <= j < out.len() && i
            != j implies out[i] != out[j] by {
            assert(out[i] == full[i] && out[j] == full[j]);
        }
    }
}

/// Records a launch: `name` moves to the front of the list, or enters it
/// there, and the list is cut down to `max` names.
pub fn record_launch(list: &mut Vec<String>, name: String, max: usize)
    ensures
        texts(final(list)@) == recorded(texts(old(list)@), name@, max as int),
{
    let ghost before = texts(list@);
    let mut out: Vec<String> = Vec::new();
    let mut i: usize = 0;
    assert(before.take(0) =~= Seq::<Seq<char>>::empty());
    assert(texts(out@) =~= without(before.take(0), name@));
    while i < list.len()
        invariant
            i <= list.len(),
            before == texts(list@),
            texts(out@) == without(before.take(i as int), name@),
        decreases list.len() - i,
    {
        proof {
            let upto = before.take(i + 1);
            assert(upto.drop_last() == before.take(i as int));
            assert(upto.last() == list@[i as int]@);
        }
        if !(list[i] == name) {
            let item = list[i].clone();
            assert(texts(out@.push(item)) =~= texts(out@).push(item@));
            out.push(item);
        }
        i = i + 1;
    }
    assert(before.take(list@.len() as int) == before);
    assert(texts(out@.insert(0, name)) =~= seq![name@] + texts(out@));
    out.insert(0, name);
    if out.len() > max {
        assert(texts(out@.take(max as int)) =~= texts(out@).take(max as int));
        out.truncate(max);
    }
    *list = out;
}

} // verus!

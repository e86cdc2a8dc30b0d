//! The soft reference from habits to goals: an embedded, serialized list of
//! goal ids. The storage engine treats the field as opaque text, so decoding
//! and re-encoding go through the serializer, and the integrity coordinator
//! works on the decoded list.

use vstd::prelude::*;

verus! {

use crate::text::{str_eq, strings_view};

/// The text `serde_json::to_string` produces for a list of goal ids.
pub uninterp spec fn linked_goals_json(ids: Seq<Seq<char>>) -> Seq<char>;

/// What `serde_json::from_str` decodes a stored linked-goals field to: the
/// list of ids, or nothing where the text is not a JSON array of strings.
pub uninterp spec fn parsed_linked_goals(s: Seq<char>) -> Option<Seq<Seq<char>>>;

/// Relies on `serde_json::from_str::<Vec<String>>`: decodes the stored
/// linked-goals text, a pure function of that text.
#[verifier::external_body]
pub(crate) fn parse_linked_goals(s: &String) -> (r: Option<Vec<String>>)
    ensures
        match r {
            Some(ids) => parsed_linked_goals(s@) == Some(strings_view(ids@)),
            None => parsed_linked_goals(s@) is None,
        },
{
    serde_json::from_str::<Vec<String>>(s).ok()
}

/// Relies on `serde_json::to_string::<Vec<String>>`: encodes a list of goal
/// ids as a JSON array of strings, which `from_str` decodes back to the same
/// list. Encoding a list of strings does not fail, so the error arm below is
/// never taken.
#[verifier::external_body]
pub(crate) fn encode_linked_goals(ids: &Vec<String>) -> (r: String)
    ensures
        r@ == linked_goals_json(strings_view(ids@)),
        parsed_linked_goals(r@) == Some(strings_view(ids@)),
{
    match serde_json::to_string(ids) {
        Ok(s) => s,
        Err(_) => String::new(),
    }
}

/// The linked-goals list with every occurrence of `g` removed.
pub open spec fn without_id(ids: Seq<Seq<char>>, g: Seq<char>) -> Seq<Seq<char>>
    decreases ids.len(),
{
    if ids.len() == 0 {
        Seq::empty()
    } else {
        let rest = without_id(ids.drop_last(), g);
        if ids.last() == g {
            rest
        } else {
            rest.push(ids.last())
        }
    }
}

/// How `without_id` grows with its input.
pub proof fn lemma_without_id_push(ids: Seq<Seq<char>>, g: Seq<char>, x: Seq<char>)
    ensures
        without_id(ids.push(x), g) == if x == g {
            without_id(ids, g)
        } else {
            without_id(ids, g).push(x)
        },
{
    assert(ids.push(x).drop_last() =~= ids);
    assert(ids.push(x).last() == x);
}

/// Every id that survives the removal differs from `g` and came from the
/// original list.
pub proof fn lemma_without_id_element(ids: Seq<Seq<char>>, g: Seq<char>, k: int)
    requires
        0 <= k < without_id(ids, g).len(),
    ensures
        without_id(ids, g)[k] != g,
        exists|m: int| 0 <= m < ids.len() && ids[m] == without_id(ids, g)[k],
    decreases ids.len(),
{
    let out = without_id(ids, g);
    let rest = without_id(ids.drop_last(), g);
    if k < rest.len() {
        lemma_without_id_element(ids.drop_last(), g, k);
        let m = choose|m: int|
            0 <= m < ids.drop_last().len() && ids.drop_last()[m] == without_id(
                ids.drop_last(),
                g,
            )[k];
        assert(ids[m] == out[k]);
    } else {
        assert(out[k] == ids[ids.len() - 1]);
    }
}

/// The removed id is gone from the result.
pub proof fn lemma_without_id_gone(ids: Seq<Seq<char>>, g: Seq<char>)
    ensures
        !without_id(ids, g).contains(g),
{
    if without_id(ids, g).contains(g) {
        let k = choose|k: int|
            0 <= k < without_id(ids, g).len() && without_id(ids, g)[k] == g;
        lemma_without_id_element(ids, g, k);
    }
}

/// Removes every occurrence of `goal_id` from a decoded linked-goals list.
pub(crate) fn retain_other_ids(ids: Vec<String>, goal_id: &String) -> (r: Vec<String>)
    ensures
        strings_view(r@) == without_id(strings_view(ids@), goal_id@),
{
    let mut out: Vec<String> = Vec::new();
    let ghost all = strings_view(ids@);
    let mut i: usize = 0;
    proof {
        assert(all.take(0) =~= Seq::<Seq<char>>::empty());
        assert(strings_view(out@) =~= Seq::<Seq<char>>::empty());
    }
    while i < ids.len()
        invariant
            i <= ids.len(),
            all == strings_view(ids@),
            strings_view(out@) == without_id(all.take(i as int), goal_id@),
        decreases ids.len() - i,
    {
        let candidate = &ids[i];
        let ghost prev = out@;
        proof {
            assert(all.take(i + 1) =~= all.take(i as int).push(all[i as int]));
            lemma_without_id_push(all.take(i as int), goal_id@, all[i as int]);
            assert(all[i as int] == ids@[i as int]@);
        }
        if !str_eq(candidate, goal_id) {
            let kept = candidate.clone();
            out.push(kept);
            proof {
                assert(strings_view(out@) =~= strings_view(prev).push(ids@[i as int]@));
            }
        }
        i += 1;
    }
    proof {
        assert(all.take(ids@.len() as int) =~= all);
    }
    out
}

} // verus!

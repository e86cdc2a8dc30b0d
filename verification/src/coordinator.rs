//! The referential-integrity coordinator: goal and habit deletion with every
//! dependent row resolved in the same step.
//!
//! Deleting a goal scrubs the id from every habit's linked-goals list, then
//! either deletes the dependent tasks (closing over subtask chains, as the
//! storage engine's cascading delete would) or clears their goal reference,
//! and finally removes the goal row. Deleting a habit removes its completion
//! rows with it.

use vstd::prelude::*;

verus! {

use crate::linked_goals::{
    encode_linked_goals,
    lemma_without_id_element,
    linked_goals_json,
    parse_linked_goals,
    parsed_linked_goals,
    retain_other_ids,
    without_id,
};
use crate::text::strings_view;
use crate::records::{Goal, HabitCompletionData, HabitData, Task};
use crate::store::{
    completion_ref_ok,
    contains_goal,
    contains_habit,
    contains_task,
    completion_keys_distinct,
    completions_distinct,
    goals_distinct,
    habit_links_ok,
    habits_distinct,
    has_goal_id,
    has_habit_id,
    has_task_id,
    task_refs_ok,
    tasks_distinct,
    Store,
};
use crate::text::str_eq;

/// What a goal deletion does with the tasks that reference the goal.
#[derive(Clone, Copy, Debug, PartialEq, Eq, Structural)]
pub enum DeleteStrategy {
    Cascade,
    Nullify,
}

/// How a textual strategy choice reads: `"cascade"` selects Cascade,
/// anything else (or nothing) the default, Nullify.
pub open spec fn spec_parse_strategy(s: Option<Seq<char>>) -> DeleteStrategy {
    match s {
        Some(text) => if text == "cascade"@ {
            DeleteStrategy::Cascade
        } else {
            DeleteStrategy::Nullify
        },
        None => DeleteStrategy::Nullify,
    }
}

/// Reads a caller-supplied strategy choice.
pub fn parse_strategy(s: &Option<String>) -> (r: DeleteStrategy)
    ensures
        r == spec_parse_strategy(match *s {
            Some(text) => Some(text@),
            None => None,
        }),
{
    match s {
        Some(text) => {
            let cascade = "cascade".to_owned();
            if str_eq(text, &cascade) {
                DeleteStrategy::Cascade
            } else {
                DeleteStrategy::Nullify
            }
        },
        None => DeleteStrategy::Nullify,
    }
}

/// The task references this goal id.
pub open spec fn task_targets(t: Task, g: Seq<char>) -> bool {
    match t.goal_id {
        Some(x) => x@ == g,
        None => false,
    }
}

/// The task with its goal reference cleared.
pub open spec fn nullified_task(t: Task) -> Task {
    Task { goal_id: None, ..t }
}

/// Row-by-row effect of the nullify strategy: tasks that referenced the goal
/// survive with the reference cleared, every other task is untouched.
pub open spec fn tasks_nullified(ts0: Seq<Task>, ts1: Seq<Task>, g: Seq<char>) -> bool {
    &&& ts1.len() == ts0.len()
    &&& forall|i: int|
        0 <= i < ts0.len() ==> (#[trigger] ts1[i]) == (if task_targets(ts0[i], g) {
            nullified_task(ts0[i])
        } else {
            ts0[i]
        })
}

/// The goal table without the goal that carries this id.
pub open spec fn goals_without(gs: Seq<Goal>, g: Seq<char>) -> Seq<Goal>
    decreases gs.len(),
{
    if gs.len() == 0 {
        Seq::empty()
    } else {
        let rest = goals_without(gs.drop_last(), g);
        if gs.last().id@ == g {
            rest
        } else {
            rest.push(gs.last())
        }
    }
}

/// The habit table without the habit that carries this id.
pub open spec fn habits_without(hs: Seq<HabitData>, id: Seq<char>) -> Seq<HabitData>
    decreases hs.len(),
{
    if hs.len() == 0 {
        Seq::empty()
    } else {
        let rest = habits_without(hs.drop_last(), id);
        if hs.last().id@ == id {
            rest
        } else {
            rest.push(hs.last())
        }
    }
}

/// The completion table without the rows that reference this habit.
pub open spec fn completions_without_habit(cs: Seq<HabitCompletionData>, id: Seq<char>) -> Seq<
    HabitCompletionData,
>
    decreases cs.len(),
{
    if cs.len() == 0 {
        Seq::empty()
    } else {
        let rest = completions_without_habit(cs.drop_last(), id);
        if cs.last().habit_id@ == id {
            rest
        } else {
            rest.push(cs.last())
        }
    }
}

/// A task survives one round of the cascading delete: it does not reference
/// the deleted goal, and its parent (if any) is still present in `orig`.
pub open spec fn keep_task(t: Task, orig: Seq<Task>, g: Seq<char>) -> bool {
    &&& !task_targets(t, g)
    &&& match t.parent_task_id {
        Some(p) => has_task_id(orig, p@),
        None => true,
    }
}

/// The part of `s` that survives one round of the cascading delete, with
/// parent references looked up in `orig`.
pub open spec fn prune_rec(orig: Seq<Task>, s: Seq<Task>, g: Seq<char>) -> Seq<Task>
    decreases s.len(),
{
    if s.len() == 0 {
        Seq::empty()
    } else {
        let rest = prune_rec(orig, s.drop_last(), g);
        if keep_task(s.last(), orig, g) {
            rest.push(s.last())
        } else {
            rest
        }
    }
}

/// One round of the cascading delete.
pub open spec fn prune_once(ts: Seq<Task>, g: Seq<char>) -> Seq<Task> {
    prune_rec(ts, ts, g)
}

/// `k` rounds of the cascading delete.
pub open spec fn prune_iter(ts: Seq<Task>, g: Seq<char>, k: nat) -> Seq<Task>
    decreases k,
{
    if k == 0 {
        ts
    } else {
        prune_once(prune_iter(ts, g, (k - 1) as nat), g)
    }
}

/// The tasks that survive a cascading delete of goal `g`: rounds of pruning
/// until nothing changes, which takes at most one round per task.
pub open spec fn cascade_remaining(ts: Seq<Task>, g: Seq<char>) -> Seq<Task> {
    prune_iter(ts, g, ts.len() as nat)
}

/// Row-by-row effect of the soft-reference cleanup on one habit: where the
/// linked-goals field decodes to a list containing the goal, the field is
/// re-encoded without it; every other row is untouched.
pub open spec fn scrubbed_habit(h0: HabitData, h1: HabitData, g: Seq<char>) -> bool {
    match parsed_linked_goals(h0.linked_goals@) {
        Some(ids) => if ids.contains(g) {
            &&& h1 == HabitData { linked_goals: h1.linked_goals, ..h0 }
            &&& h1.linked_goals@ == linked_goals_json(without_id(ids, g))
            &&& parsed_linked_goals(h1.linked_goals@) == Some(without_id(ids, g))
        } else {
            h1 == h0
        },
        None => h1 == h0,
    }
}

/// The soft-reference cleanup, applied to the whole habits table.
pub open spec fn habits_scrubbed(hs0: Seq<HabitData>, hs1: Seq<HabitData>, g: Seq<char>) -> bool {
    &&& hs1.len() == hs0.len()
    &&& forall|i: int| 0 <= i < hs0.len() ==> scrubbed_habit(hs0[i], #[trigger] hs1[i], g)
}

// ------------------------------------------------------------------
// Lemmas about the table functions.
// ------------------------------------------------------------------

/// How `goals_without` grows with its input.
proof fn lemma_goals_without_push(gs: Seq<Goal>, g: Seq<char>, x: Goal)
    ensures
        goals_without(gs.push(x), g) == if x.id@ == g {
            goals_without(gs, g)
        } else {
            goals_without(gs, g).push(x)
        },
{
    assert(gs.push(x).drop_last() =~= gs);
}

/// Every goal that survives the removal differs from `g` and came from the
/// original table.
pub proof fn lemma_goals_without_element(gs: Seq<Goal>, g: Seq<char>, k: int)
    requires
        0 <= k < goals_without(gs, g).len(),
    ensures
        goals_without(gs, g)[k].id@ != g,
        exists|m: int| 0 <= m < gs.len() && gs[m] == goals_without(gs, g)[k],
    decreases gs.len(),
{
    let rest = goals_without(gs.drop_last(), g);
    if k < rest.len() {
        lemma_goals_without_element(gs.drop_last(), g, k);
        let m = choose|m: int| 0 <= m < gs.drop_last().len() && gs.drop_last()[m] == rest[k];
        assert(gs[m] == goals_without(gs, g)[k]);
    } else {
        assert(goals_without(gs, g)[k] == gs[gs.len() - 1]);
    }
}

/// Goals with other ids survive the removal.
pub proof fn lemma_goals_without_keeps(gs: Seq<Goal>, g: Seq<char>, x: Seq<char>)
    requires
        has_goal_id(gs, x),
        x != g,
    ensures
        has_goal_id(goals_without(gs, g), x),
    decreases gs.len(),
{
    let i = choose|i: int| 0 <= i < gs.len() && (#[trigger] gs[i].id@) == x;
    let rest = goals_without(gs.drop_last(), g);
    if i == gs.len() - 1 {
        assert(goals_without(gs, g)[rest.len() as int].id@ == x);
    } else {
        assert(gs.drop_last()[i].id@ == x);
        lemma_goals_without_keeps(gs.drop_last(), g, x);
        let m = choose|m: int| 0 <= m < rest.len() && (#[trigger] rest[m].id@) == x;
        assert(goals_without(gs, g)[m].id@ == x);
    }
}

/// Removing an id that no goal carries removes nothing.
pub proof fn lemma_goals_without_absent(gs: Seq<Goal>, g: Seq<char>)
    requires
        !has_goal_id(gs, g),
    ensures
        goals_without(gs, g) == gs,
    decreases gs.len(),
{
    if gs.len() > 0 {
        assert(!has_goal_id(gs.drop_last(), g)) by {
            if has_goal_id(gs.drop_last(), g) {
                let i = choose|i: int|
                    0 <= i < gs.drop_last().len() && (#[trigger] gs.drop_last()[i].id@) == g;
                assert(gs[i].id@ == g);
            }
        }
        lemma_goals_without_absent(gs.drop_last(), g);
        assert(gs[gs.len() - 1].id@ != g);
        assert(goals_without(gs, g) =~= gs);
    }
}

/// The removal keeps goal ids distinct.
proof fn lemma_goals_without_distinct(gs: Seq<Goal>, g: Seq<char>)
    requires
        goals_distinct(gs),
    ensures
        goals_distinct(goals_without(gs, g)),
    decreases gs.len(),
{
    if gs.len() > 0 {
        let prefix = gs.drop_last();
        assert(goals_distinct(prefix)) by {
            assert forall|i: int, j: int|
                0 <= i < j < prefix.len() implies (#[trigger] prefix[i].id@) != (
            #[trigger] prefix[j].id@) by {
                assert(gs[i].id@ != gs[j].id@);
            }
        }
        lemma_goals_without_distinct(prefix, g);
        let rest = goals_without(prefix, g);
        if gs.last().id@ != g {
            let out = rest.push(gs.last());
            assert forall|i: int, j: int|
                0 <= i < j < out.len() implies (#[trigger] out[i].id@) != (
            #[trigger] out[j].id@) by {
                if j == rest.len() as int {
                    lemma_goals_without_element(prefix, g, i);
                    let m = choose|m: int| 0 <= m < prefix.len() && prefix[m] == rest[i];
                    assert(gs[m].id@ != gs[gs.len() - 1].id@);
                }
            }
        }
    }
}

/// How `habits_without` grows with its input.
proof fn lemma_habits_without_push(hs: Seq<HabitData>, id: Seq<char>, x: HabitData)
    ensures
        habits_without(hs.push(x), id) == if x.id@ == id {
            habits_without(hs, id)
        } else {
            habits_without(hs, id).push(x)
        },
{
    assert(hs.push(x).drop_last() =~= hs);
}

/// Every habit that survives the removal differs from `id` and came from the
/// original table.
pub proof fn lemma_habits_without_element(hs: Seq<HabitData>, id: Seq<char>, k: int)
    requires
        0 <= k < habits_without(hs, id).len(),
    ensures
        habits_without(hs, id)[k].id@ != id,
        exists|m: int| 0 <= m < hs.len() && hs[m] == habits_without(hs, id)[k],
    decreases hs.len(),
{
    let rest = habits_without(hs.drop_last(), id);
    if k < rest.len() {
        lemma_habits_without_element(hs.drop_last(), id, k);
        let m = choose|m: int| 0 <= m < hs.drop_last().len() && hs.drop_last()[m] == rest[k];
        assert(hs[m] == habits_without(hs, id)[k]);
    } else {
        assert(habits_without(hs, id)[k] == hs[hs.len() - 1]);
    }
}

/// Habits with other ids survive the removal.
pub proof fn lemma_habits_without_keeps(hs: Seq<HabitData>, id: Seq<char>, x: Seq<char>)
    requires
        has_habit_id(hs, x),
        x != id,
    ensures
        has_habit_id(habits_without(hs, id), x),
    decreases hs.len(),
{
    let i = choose|i: int| 0 <= i < hs.len() && (#[trigger] hs[i].id@) == x;
    let rest = habits_without(hs.drop_last(), id);
    if i == hs.len() - 1 {
        assert(habits_without(hs, id)[rest.len() as int].id@ == x);
    } else {
        assert(hs.drop_last()[i].id@ == x);
        lemma_habits_without_keeps(hs.drop_last(), id, x);
        let m = choose|m: int| 0 <= m < rest.len() && (#[trigger] rest[m].id@) == x;
        assert(habits_without(hs, id)[m].id@ == x);
    }
}

/// The removal keeps habit ids distinct.
proof fn lemma_habits_without_distinct(hs: Seq<HabitData>, id: Seq<char>)
    requires
        habits_distinct(hs),
    ensures
        habits_distinct(habits_without(hs, id)),
    decreases hs.len(),
{
    if hs.len() > 0 {
        let prefix = hs.drop_last();
        assert(habits_distinct(prefix)) by {
            assert forall|i: int, j: int|
                0 <= i < j < prefix.len() implies (#[trigger] prefix[i].id@) != (
            #[trigger] prefix[j].id@) by {
                assert(hs[i].id@ != hs[j].id@);
            }
        }
        lemma_habits_without_distinct(prefix, id);
        let rest = habits_without(prefix, id);
        if hs.last().id@ != id {
            let out = rest.push(hs.last());
            assert forall|i: int, j: int|
                0 <= i < j < out.len() implies (#[trigger] out[i].id@) != (
            #[trigger] out[j].id@) by {
                if j == rest.len() as int {
                    lemma_habits_without_element(prefix, id, i);
                    let m = choose|m: int| 0 <= m < prefix.len() && prefix[m] == rest[i];
                    assert(hs[m].id@ != hs[hs.len() - 1].id@);
                }
            }
        }
    }
}

/// How `completions_without_habit` grows with its input.
proof fn lemma_completions_without_push(
    cs: Seq<HabitCompletionData>,
    id: Seq<char>,
    x: HabitCompletionData,
)
    ensures
        completions_without_habit(cs.push(x), id) == if x.habit_id@ == id {
            completions_without_habit(cs, id)
        } else {
            completions_without_habit(cs, id).push(x)
        },
{
    assert(cs.push(x).drop_last() =~= cs);
}

/// Every completion that survives references another habit and came from the
/// original table.
pub proof fn lemma_completions_without_element(cs: Seq<HabitCompletionData>, id: Seq<char>, k: int)
    requires
        0 <= k < completions_without_habit(cs, id).len(),
    ensures
        completions_without_habit(cs, id)[k].habit_id@ != id,
        exists|m: int| 0 <= m < cs.len() && cs[m] == completions_without_habit(cs, id)[k],
    decreases cs.len(),
{
    let rest = completions_without_habit(cs.drop_last(), id);
    if k < rest.len() {
        lemma_completions_without_element(cs.drop_last(), id, k);
        let m = choose|m: int| 0 <= m < cs.drop_last().len() && cs.drop_last()[m] == rest[k];
        assert(cs[m] == completions_without_habit(cs, id)[k]);
    } else {
        assert(completions_without_habit(cs, id)[k] == cs[cs.len() - 1]);
    }
}

/// The removal keeps completion ids and `(habit, date)` keys distinct.
proof fn lemma_completions_without_distinct(cs: Seq<HabitCompletionData>, id: Seq<char>)
    requires
        completions_distinct(cs),
        completion_keys_distinct(cs),
    ensures
        completions_distinct(completions_without_habit(cs, id)),
        completion_keys_distinct(completions_without_habit(cs, id)),
    decreases cs.len(),
{
    if cs.len() > 0 {
        let prefix = cs.drop_last();
        assert(completions_distinct(prefix) && completion_keys_distinct(prefix)) by {
            assert forall|i: int, j: int|
                0 <= i < j < prefix.len() implies (#[trigger] prefix[i].id@) != (
            #[trigger] prefix[j].id@) by {
                assert(cs[i].id@ != cs[j].id@);
            }
            assert forall|i: int, j: int|
                0 <= i < j < prefix.len() implies !((#[trigger] prefix[i].habit_id@) == (
            #[trigger] prefix[j].habit_id@) && prefix[i].date@ == prefix[j].date@) by {
                assert(!(cs[i].habit_id@ == cs[j].habit_id@ && cs[i].date@ == cs[j].date@));
            }
        }
        lemma_completions_without_distinct(prefix, id);
        let rest = completions_without_habit(prefix, id);
        if cs.last().habit_id@ != id {
            let out = rest.push(cs.last());
            assert forall|i: int, j: int|
                0 <= i < j < out.len() implies (#[trigger] out[i].id@) != (
            #[trigger] out[j].id@) by {
                if j == rest.len() as int {
                    lemma_completions_without_element(prefix, id, i);
                    let m = choose|m: int| 0 <= m < prefix.len() && prefix[m] == rest[i];
                    assert(cs[m].id@ != cs[cs.len() - 1].id@);
                }
            }
            assert forall|i: int, j: int|
                0 <= i < j < out.len() implies !((#[trigger] out[i].habit_id@) == (
            #[trigger] out[j].habit_id@) && out[i].date@ == out[j].date@) by {
                if j == rest.len() as int {
                    lemma_completions_without_element(prefix, id, i);
                    let m = choose|m: int| 0 <= m < prefix.len() && prefix[m] == rest[i];
                    assert(!(cs[m].habit_id@ == cs[cs.len() - 1].habit_id@ && cs[m].date@
                        == cs[cs.len() - 1].date@));
                }
            }
        }
    }
}

/// How one pruning round grows with its input.
proof fn lemma_prune_rec_push(orig: Seq<Task>, s: Seq<Task>, g: Seq<char>, x: Task)
    ensures
        prune_rec(orig, s.push(x), g) == if keep_task(x, orig, g) {
            prune_rec(orig, s, g).push(x)
        } else {
            prune_rec(orig, s, g)
        },
{
    assert(s.push(x).drop_last() =~= s);
}

/// A pruning round never grows the table.
proof fn lemma_prune_rec_len(orig: Seq<Task>, s: Seq<Task>, g: Seq<char>)
    ensures
        prune_rec(orig, s, g).len() <= s.len(),
    decreases s.len(),
{
    if s.len() > 0 {
        lemma_prune_rec_len(orig, s.drop_last(), g);
    }
}

/// Every task that survives a pruning round passed the test and came from the
/// original table.
pub proof fn lemma_prune_rec_element(orig: Seq<Task>, s: Seq<Task>, g: Seq<char>, k: int)
    requires
        0 <= k < prune_rec(orig, s, g).len(),
    ensures
        keep_task(prune_rec(orig, s, g)[k], orig, g),
        exists|m: int| 0 <= m < s.len() && s[m] == prune_rec(orig, s, g)[k],
    decreases s.len(),
{
    let rest = prune_rec(orig, s.drop_last(), g);
    if k < rest.len() {
        lemma_prune_rec_element(orig, s.drop_last(), g, k);
        let m = choose|m: int| 0 <= m < s.drop_last().len() && s.drop_last()[m] == rest[k];
        assert(s[m] == prune_rec(orig, s, g)[k]);
    } else {
        assert(prune_rec(orig, s, g)[k] == s[s.len() - 1]);
    }
}

/// A pruning round that removes nothing by count removes nothing at all.
proof fn lemma_prune_rec_len_eq(orig: Seq<Task>, s: Seq<Task>, g: Seq<char>)
    requires
        prune_rec(orig, s, g).len() == s.len(),
    ensures
        prune_rec(orig, s, g) == s,
    decreases s.len(),
{
    if s.len() > 0 {
        let rest = prune_rec(orig, s.drop_last(), g);
        lemma_prune_rec_len(orig, s.drop_last(), g);
        if keep_task(s.last(), orig, g) {
            lemma_prune_rec_len_eq(orig, s.drop_last(), g);
            assert(prune_rec(orig, s, g) =~= s);
        }
    }
}

/// A pruning round that every task passes removes nothing.
proof fn lemma_prune_rec_all_kept(orig: Seq<Task>, s: Seq<Task>, g: Seq<char>)
    requires
        forall|i: int| 0 <= i < s.len() ==> keep_task(#[trigger] s[i], orig, g),
    ensures
        prune_rec(orig, s, g) == s,
    decreases s.len(),
{
    if s.len() > 0 {
        assert(forall|i: int|
            0 <= i < s.drop_last().len() ==> keep_task(#[trigger] s.drop_last()[i], orig, g));
        lemma_prune_rec_all_kept(orig, s.drop_last(), g);
        assert(keep_task(s[s.len() - 1], orig, g));
        assert(prune_rec(orig, s, g) =~= s);
    }
}

/// A pruning round keeps task ids distinct.
proof fn lemma_prune_rec_distinct(orig: Seq<Task>, s: Seq<Task>, g: Seq<char>)
    requires
        tasks_distinct(s),
    ensures
        tasks_distinct(prune_rec(orig, s, g)),
    decreases s.len(),
{
    if s.len() > 0 {
        let prefix = s.drop_last();
        assert(tasks_distinct(prefix)) by {
            assert forall|i: int, j: int|
                0 <= i < j < prefix.len() implies (#[trigger] prefix[i].id@) != (
            #[trigger] prefix[j].id@) by {
                assert(s[i].id@ != s[j].id@);
            }
        }
        lemma_prune_rec_distinct(orig, prefix, g);
        let rest = prune_rec(orig, prefix, g);
        if keep_task(s.last(), orig, g) {
            let out = rest.push(s.last());
            assert forall|i: int, j: int|
                0 <= i < j < out.len() implies (#[trigger] out[i].id@) != (
            #[trigger] out[j].id@) by {
                if j == rest.len() as int {
                    lemma_prune_rec_element(orig, prefix, g, i);
                    let m = choose|m: int| 0 <= m < prefix.len() && prefix[m] == rest[i];
                    assert(s[m].id@ != s[s.len() - 1].id@);
                }
            }
        }
    }
}

/// After as many pruning rounds as there were tasks, pruning again changes
/// nothing.
proof fn lemma_prune_progress(ts: Seq<Task>, g: Seq<char>, k: nat)
    ensures
        prune_iter(ts, g, k).len() + k <= ts.len() || prune_once(prune_iter(ts, g, k), g)
            == prune_iter(ts, g, k),
    decreases k,
{
    if k > 0 {
        lemma_prune_progress(ts, g, (k - 1) as nat);
        let prev = prune_iter(ts, g, (k - 1) as nat);
        let cur = prune_iter(ts, g, k);
        if prune_once(prev, g) == prev {
            assert(cur == prev);
        } else {
            lemma_prune_rec_len(prev, prev, g);
            if cur.len() == prev.len() {
                lemma_prune_rec_len_eq(prev, prev, g);
            }
        }
    }
}

/// The pruned task table is a fixed point of pruning.
pub proof fn lemma_cascade_fixpoint(ts: Seq<Task>, g: Seq<char>)
    ensures
        prune_once(cascade_remaining(ts, g), g) == cascade_remaining(ts, g),
{
    let n = ts.len() as nat;
    lemma_prune_progress(ts, g, n);
    let cas = cascade_remaining(ts, g);
    if cas.len() + n <= ts.len() {
        assert(cas.len() == 0);
        assert(cas =~= Seq::<Task>::empty());
        assert(prune_once(cas, g) =~= cas);
    }
}

/// Every task that survives a cascading delete neither references the goal
/// nor a removed parent.
pub proof fn lemma_cascade_elements(ts: Seq<Task>, g: Seq<char>, i: int)
    requires
        0 <= i < cascade_remaining(ts, g).len(),
    ensures
        keep_task(cascade_remaining(ts, g)[i], cascade_remaining(ts, g), g),
{
    lemma_cascade_fixpoint(ts, g);
    let cas = cascade_remaining(ts, g);
    lemma_prune_rec_element(cas, cas, g, i);
    lemma_prune_rec_len(cas, cas, g);
    lemma_prune_rec_len_eq(cas, cas, g);
    assert(prune_rec(cas, cas, g)[i] == cas[i]);
}

/// Pruning only ever removes rows, so every surviving row was present before.
pub proof fn lemma_prune_iter_origin(ts: Seq<Task>, g: Seq<char>, k: nat, i: int)
    requires
        0 <= i < prune_iter(ts, g, k).len(),
    ensures
        exists|m: int| 0 <= m < ts.len() && ts[m] == prune_iter(ts, g, k)[i],
    decreases k,
{
    if k == 0 {
        assert(ts[i] == prune_iter(ts, g, k)[i]);
    } else {
        let prev = prune_iter(ts, g, (k - 1) as nat);
        let cur = prune_iter(ts, g, k);
        lemma_prune_rec_element(prev, prev, g, i);
        let m0 = choose|m0: int| 0 <= m0 < prev.len() && prev[m0] == cur[i];
        lemma_prune_iter_origin(ts, g, (k - 1) as nat, m0);
        let m = choose|m: int| 0 <= m < ts.len() && ts[m] == prev[m0];
        assert(ts[m] == cur[i]);
    }
}

/// Pruning never introduces a duplicate task id.
proof fn lemma_prune_iter_distinct(ts: Seq<Task>, g: Seq<char>, k: nat)
    requires
        tasks_distinct(ts),
    ensures
        tasks_distinct(prune_iter(ts, g, k)),
    decreases k,
{
    if k > 0 {
        let prev = prune_iter(ts, g, (k - 1) as nat);
        lemma_prune_iter_distinct(ts, g, (k - 1) as nat);
        lemma_prune_rec_distinct(prev, prev, g);
    }
}

// ------------------------------------------------------------------
// Executable helpers.
// ------------------------------------------------------------------

/// Decides whether an optional id field names this id.
fn opt_id_matches(o: &Option<String>, id: &String) -> (r: bool)
    ensures
        r == match *o {
            Some(x) => x@ == id@,
            None => false,
        },
{
    match o {
        Some(x) => str_eq(x, id),
        None => false,
    }
}

/// Rewrites one habit row for a goal deletion.
fn scrub_habit(h: &HabitData, id: &String) -> (r: HabitData)
    ensures
        scrubbed_habit(*h, r, id@),
{
    match parse_linked_goals(&h.linked_goals) {
        Some(ids) => {
            let mut found = false;
            let mut i: usize = 0;
            while i < ids.len()
                invariant
                    i <= ids.len(),
                    found == exists|j: int| 0 <= j < i && (#[trigger] ids@[j]@) == id@,
                decreases ids.len() - i,
            {
                if str_eq(&ids[i], id) {
                    found = true;
                    proof {
                        assert(ids@[i as int]@ == id@);
                    }
                }
                i += 1;
            }
            proof {
                let idsv = strings_view(ids@);
                if found {
                    let j = choose|j: int| 0 <= j < ids@.len() && (#[trigger] ids@[j]@) == id@;
                    assert(idsv[j] == id@);
                    assert(idsv.contains(id@));
                } else {
                    if idsv.contains(id@) {
                        let j = choose|j: int| 0 <= j < idsv.len() && idsv[j] == id@;
                        assert(ids@[j]@ == id@);
                    }
                }
            }
            if found {
                let filtered = retain_other_ids(ids, id);
                let encoded = encode_linked_goals(&filtered);
                let mut out = h.clone();
                out.linked_goals = encoded;
                out
            } else {
                h.clone()
            }
        },
        None => h.clone(),
    }
}

/// Applies the soft-reference cleanup to every habit.
fn scrub_habits(habits: &Vec<HabitData>, id: &String) -> (r: Vec<HabitData>)
    ensures
        habits_scrubbed(habits@, r@, id@),
{
    let mut out: Vec<HabitData> = Vec::new();
    let mut i: usize = 0;
    while i < habits.len()
        invariant
            i <= habits.len(),
            out@.len() == i,
            forall|j: int| 0 <= j < i ==> scrubbed_habit(habits@[j], #[trigger] out@[j], id@),
        decreases habits.len() - i,
    {
        let nh = scrub_habit(&habits[i], id);
        out.push(nh);
        i += 1;
    }
    out
}

/// Applies the nullify strategy to every task.
fn nullify_tasks(tasks: &Vec<Task>, id: &String) -> (r: Vec<Task>)
    ensures
        tasks_nullified(tasks@, r@, id@),
{
    let mut out: Vec<Task> = Vec::new();
    let mut i: usize = 0;
    while i < tasks.len()
        invariant
            i <= tasks.len(),
            out@.len() == i,
            forall|j: int|
                0 <= j < i ==> (#[trigger] out@[j]) == (if task_targets(tasks@[j], id@) {
                    nullified_task(tasks@[j])
                } else {
                    tasks@[j]
                }),
        decreases tasks.len() - i,
    {
        let t = &tasks[i];
        if opt_id_matches(&t.goal_id, id) {
            let mut nt = t.clone();
            nt.goal_id = None;
            out.push(nt);
        } else {
            out.push(t.clone());
        }
        i += 1;
    }
    out
}

/// Applies one round of the cascading delete.
fn prune_tasks_once(tasks: Vec<Task>, id: &String) -> (r: Vec<Task>)
    ensures
        r@ == prune_once(tasks@, id@),
{
    let mut out: Vec<Task> = Vec::new();
    let mut i: usize = 0;
    proof {
        assert(tasks@.take(0) =~= Seq::<Task>::empty());
    }
    while i < tasks.len()
        invariant
            i <= tasks.len(),
            out@ == prune_rec(tasks@, tasks@.take(i as int), id@),
        decreases tasks.len() - i,
    {
        let t = &tasks[i];
        let keep = !opt_id_matches(&t.goal_id, id) && (match &t.parent_task_id {
            Some(par) => contains_task(&tasks, par),
            None => true,
        });
        proof {
            assert(tasks@.take(i + 1) =~= tasks@.take(i as int).push(tasks@[i as int]));
            lemma_prune_rec_push(tasks@, tasks@.take(i as int), id@, tasks@[i as int]);
            assert(keep == keep_task(tasks@[i as int], tasks@, id@));
        }
        if keep {
            out.push(t.clone());
        }
        i += 1;
    }
    proof {
        assert(tasks@.take(tasks@.len() as int) =~= tasks@);
    }
    out
}

/// Removes every goal row carrying this id.
fn remove_goal_rows(goals: &Vec<Goal>, id: &String) -> (r: Vec<Goal>)
    ensures
        r@ == goals_without(goals@, id@),
{
    let mut out: Vec<Goal> = Vec::new();
    let mut i: usize = 0;
    proof {
        assert(goals@.take(0) =~= Seq::<Goal>::empty());
    }
    while i < goals.len()
        invariant
            i <= goals.len(),
            out@ == goals_without(goals@.take(i as int), id@),
        decreases goals.len() - i,
    {
        let g = &goals[i];
        proof {
            assert(goals@.take(i + 1) =~= goals@.take(i as int).push(goals@[i as int]));
            lemma_goals_without_push(goals@.take(i as int), id@, goals@[i as int]);
        }
        if !str_eq(&g.id, id) {
            out.push(g.clone());
        }
        i += 1;
    }
    proof {
        assert(goals@.take(goals@.len() as int) =~= goals@);
    }
    out
}

/// Removes every habit row carrying this id.
fn remove_habit_rows(habits: &Vec<HabitData>, id: &String) -> (r: Vec<HabitData>)
    ensures
        r@ == habits_without(habits@, id@),
{
    let mut out: Vec<HabitData> = Vec::new();
    let mut i: usize = 0;
    proof {
        assert(habits@.take(0) =~= Seq::<HabitData>::empty());
    }
    while i < habits.len()
        invariant
            i <= habits.len(),
            out@ == habits_without(habits@.take(i as int), id@),
        decreases habits.len() - i,
    {
        let h = &habits[i];
        proof {
            assert(habits@.take(i + 1) =~= habits@.take(i as int).push(habits@[i as int]));
            lemma_habits_without_push(habits@.take(i as int), id@, habits@[i as int]);
        }
        if !str_eq(&h.id, id) {
            out.push(h.clone());
        }
        i += 1;
    }
    proof {
        assert(habits@.take(habits@.len() as int) =~= habits@);
    }
    out
}

/// Removes every completion row referencing this habit.
fn remove_habit_completions(completions: &Vec<HabitCompletionData>, id: &String) -> (r: Vec<
    HabitCompletionData,
>)
    ensures
        r@ == completions_without_habit(completions@, id@),
{
    let mut out: Vec<HabitCompletionData> = Vec::new();
    let mut i: usize = 0;
    proof {
        assert(completions@.take(0) =~= Seq::<HabitCompletionData>::empty());
    }
    while i < completions.len()
        invariant
            i <= completions.len(),
            out@ == completions_without_habit(completions@.take(i as int), id@),
        decreases completions.len() - i,
    {
        let c = &completions[i];
        proof {
            assert(completions@.take(i + 1) =~= completions@.take(i as int).push(
                completions@[i as int],
            ));
            lemma_completions_without_push(
                completions@.take(i as int),
                id@,
                completions@[i as int],
            );
        }
        if !str_eq(&c.habit_id, id) {
            out.push(c.clone());
        }
        i += 1;
    }
    proof {
        assert(completions@.take(completions@.len() as int) =~= completions@);
    }
    out
}

// ------------------------------------------------------------------
// The operations.
// ------------------------------------------------------------------

impl Store {
    /// Deletes a goal. In one step: the goal id is removed from every habit's
    /// linked-goals list; the tasks referencing the goal are deleted (with
    /// their subtask chains, under `Cascade`) or keep their row with the goal
    /// reference cleared (under `Nullify`); the goal row itself is removed.
    /// Deleting an absent id is not an error: the result reports whether the
    /// goal row existed.
    pub fn delete_goal(&mut self, id: &String, strategy: DeleteStrategy) -> (existed: bool)
        requires
            old(self).wf(),
        ensures
            final(self).wf(),
            existed == has_goal_id(old(self).goals@, id@),
            final(self).goals@ == goals_without(old(self).goals@, id@),
            habits_scrubbed(old(self).habits@, final(self).habits@, id@),
            strategy == DeleteStrategy::Cascade ==> final(self).tasks@ == cascade_remaining(
                old(self).tasks@,
                id@,
            ),
            strategy == DeleteStrategy::Nullify ==> tasks_nullified(
                old(self).tasks@,
                final(self).tasks@,
                id@,
            ),
            final(self).completions@ == old(self).completions@,
            final(self).settings == old(self).settings,
    {
        let existed = contains_goal(&self.goals, id);

        // Soft references: scrub the id out of every habit's linked-goals.
        let new_habits = scrub_habits(&self.habits, id);

        // Hard references: resolve the dependent tasks.
        let new_tasks = match strategy {
            DeleteStrategy::Cascade => {
                let mut ts: Vec<Task> = Vec::new();
                core::mem::swap(&mut ts, &mut self.tasks);
                let ghost orig = ts@;
                let rounds = ts.len();
                let mut k: usize = 0;
                while k < rounds
                    invariant
                        k <= rounds,
                        rounds == orig.len(),
                        ts@ == prune_iter(orig, id@, k as nat),
                    decreases rounds - k,
                {
                    ts = prune_tasks_once(ts, id);
                    k += 1;
                }
                ts
            },
            DeleteStrategy::Nullify => nullify_tasks(&self.tasks, id),
        };

        // The goal row itself.
        let new_goals = remove_goal_rows(&self.goals, id);

        self.goals = new_goals;
        self.tasks = new_tasks;
        self.habits = new_habits;

        proof {
            lemma_delete_goal_wf(*old(self), *self, id@, strategy == DeleteStrategy::Cascade);
        }
        existed
    }

    /// Deletes a habit; its completion rows are removed with it, as a forced
    /// cascade. Deleting an absent id is not an error: the result reports
    /// whether the habit row existed.
    pub fn delete_habit(&mut self, id: &String) -> (existed: bool)
        requires
            old(self).wf(),
        ensures
            final(self).wf(),
            existed == has_habit_id(old(self).habits@, id@),
            final(self).habits@ == habits_without(old(self).habits@, id@),
            final(self).completions@ == completions_without_habit(old(self).completions@, id@),
            final(self).goals@ == old(self).goals@,
            final(self).tasks@ == old(self).tasks@,
            final(self).settings == old(self).settings,
    {
        let existed = contains_habit(&self.habits, id);
        let new_habits = remove_habit_rows(&self.habits, id);
        let new_completions = remove_habit_completions(&self.completions, id);

        self.habits = new_habits;
        self.completions = new_completions;

        proof {
            lemma_delete_habit_wf(*old(self), *self, id@);
        }
        existed
    }
}

// ------------------------------------------------------------------
// Preservation of the storage invariants.
// ------------------------------------------------------------------

/// The deletion of one goal leaves a well-formed store.
proof fn lemma_delete_goal_wf(s0: Store, s1: Store, g: Seq<char>, cascade: bool)
    requires
        s0.wf(),
        s1.goals@ == goals_without(s0.goals@, g),
        habits_scrubbed(s0.habits@, s1.habits@, g),
        cascade ==> s1.tasks@ == cascade_remaining(s0.tasks@, g),
        !cascade ==> tasks_nullified(s0.tasks@, s1.tasks@, g),
        s1.completions@ == s0.completions@,
    ensures
        s1.wf(),
{
    let gs0 = s0.goals@;
    let gs1 = s1.goals@;
    let hs0 = s0.habits@;
    let hs1 = s1.habits@;
    let ts0 = s0.tasks@;
    let ts1 = s1.tasks@;

    // Goals: removal keeps ids distinct.
    lemma_goals_without_distinct(gs0, g);

    // Habits: ids are untouched by the scrub.
    assert forall|i: int, j: int|
        0 <= i < j < hs1.len() implies (#[trigger] hs1[i].id@) != (#[trigger] hs1[j].id@) by {
        assert(scrubbed_habit(hs0[i], hs1[i], g));
        assert(scrubbed_habit(hs0[j], hs1[j], g));
        assert(hs1[i].id@ == hs0[i].id@ && hs1[j].id@ == hs0[j].id@);
    }

    // Habit ids are preserved, so completion references stay valid.
    assert forall|i: int|
        0 <= i < s1.completions@.len() implies completion_ref_ok(
        #[trigger] s1.completions@[i],
        hs1,
    ) by {
        assert(completion_ref_ok(s0.completions@[i], hs0));
        let m = choose|m: int|
            0 <= m < hs0.len() && (#[trigger] hs0[m].id@) == s0.completions@[i].habit_id@;
        assert(scrubbed_habit(hs0[m], hs1[m], g));
        assert(hs1[m].id@ == hs0[m].id@);
    }

    // Habit links: every surviving id names another goal, still present.
    assert forall|i: int| 0 <= i < hs1.len() implies habit_links_ok(#[trigger] hs1[i], gs1) by {
        assert(habit_links_ok(hs0[i], gs0));
        assert(scrubbed_habit(hs0[i], hs1[i], g));
        match parsed_linked_goals(hs0[i].linked_goals@) {
            Some(ids) => {
                if ids.contains(g) {
                    let rem = without_id(ids, g);
                    assert forall|k: int| 0 <= k < rem.len() implies has_goal_id(
                        gs1,
                        #[trigger] rem[k],
                    ) by {
                        lemma_without_id_element(ids, g, k);
                        let m = choose|m: int| 0 <= m < ids.len() && ids[m] == rem[k];
                        assert(has_goal_id(gs0, ids[m]));
                        lemma_goals_without_keeps(gs0, g, rem[k]);
                    }
                } else {
                    assert(parsed_linked_goals(hs1[i].linked_goals@) == Some(ids));
                    assert forall|k: int| 0 <= k < ids.len() implies has_goal_id(
                        gs1,
                        #[trigger] ids[k],
                    ) by {
                        assert(!ids.contains(g));
                        assert(ids[k] != g);
                        lemma_goals_without_keeps(gs0, g, ids[k]);
                    }
                }
            },
            None => {},
        }
    }

    // Tasks, under each strategy.
    if cascade {
        lemma_prune_iter_distinct(ts0, g, ts0.len() as nat);
        assert forall|i: int| 0 <= i < ts1.len() implies task_refs_ok(
            #[trigger] ts1[i],
            gs1,
            ts1,
        ) by {
            lemma_cascade_elements(ts0, g, i);
            lemma_prune_iter_origin(ts0, g, ts0.len() as nat, i);
            let m = choose|m: int| 0 <= m < ts0.len() && ts0[m] == ts1[i];
            assert(task_refs_ok(ts0[m], gs0, ts0));
            match ts1[i].goal_id {
                Some(x) => {
                    assert(!task_targets(ts1[i], g));
                    lemma_goals_without_keeps(gs0, g, x@);
                },
                None => {},
            }
        }
    } else {
        assert forall|i: int, j: int|
            0 <= i < j < ts1.len() implies (#[trigger] ts1[i].id@) != (#[trigger] ts1[j].id@) by {
            assert(ts1[i].id@ == ts0[i].id@ && ts1[j].id@ == ts0[j].id@);
        }
        assert forall|i: int| 0 <= i < ts1.len() implies task_refs_ok(
            #[trigger] ts1[i],
            gs1,
            ts1,
        ) by {
            assert(task_refs_ok(ts0[i], gs0, ts0));
            match ts1[i].goal_id {
                Some(x) => {
                    assert(!task_targets(ts0[i], g));
                    assert(ts1[i].goal_id == ts0[i].goal_id);
                    assert(x@ != g);
                    lemma_goals_without_keeps(gs0, g, x@);
                },
                None => {},
            }
            match ts1[i].parent_task_id {
                Some(p) => {
                    assert(ts1[i].parent_task_id == ts0[i].parent_task_id);
                    let m = choose|m: int| 0 <= m < ts0.len() && (#[trigger] ts0[m].id@) == p@;
                    assert(ts1[m].id@ == ts0[m].id@);
                },
                None => {},
            }
        }
    }
}

/// Pruning changes nothing once a round of pruning changes nothing.
proof fn lemma_prune_iter_stable(ts: Seq<Task>, g: Seq<char>, k: nat)
    requires
        prune_once(ts, g) == ts,
    ensures
        prune_iter(ts, g, k) == ts,
    decreases k,
{
    if k > 0 {
        lemma_prune_iter_stable(ts, g, (k - 1) as nat);
    }
}

/// The deletion of one habit leaves a well-formed store.
proof fn lemma_delete_habit_wf(s0: Store, s1: Store, h: Seq<char>)
    requires
        s0.wf(),
        s1.habits@ == habits_without(s0.habits@, h),
        s1.completions@ == completions_without_habit(s0.completions@, h),
        s1.goals@ == s0.goals@,
        s1.tasks@ == s0.tasks@,
    ensures
        s1.wf(),
{
    lemma_habits_without_distinct(s0.habits@, h);
    lemma_completions_without_distinct(s0.completions@, h);
    let cs1 = s1.completions@;
    assert forall|i: int| 0 <= i < cs1.len() implies completion_ref_ok(
        #[trigger] cs1[i],
        s1.habits@,
    ) by {
        lemma_completions_without_element(s0.completions@, h, i);
        let m = choose|m: int| 0 <= m < s0.completions@.len() && s0.completions@[m] == cs1[i];
        assert(completion_ref_ok(s0.completions@[m], s0.habits@));
        lemma_habits_without_keeps(s0.habits@, h, cs1[i].habit_id@);
    }
    assert forall|i: int| 0 <= i < s1.habits@.len() implies habit_links_ok(
        #[trigger] s1.habits@[i],
        s1.goals@,
    ) by {
        lemma_habits_without_element(s0.habits@, h, i);
        let m = choose|m: int| 0 <= m < s0.habits@.len() && s0.habits@[m] == s1.habits@[i];
        assert(habit_links_ok(s0.habits@[m], s0.goals@));
    }
    assert forall|i: int| 0 <= i < s1.tasks@.len() implies task_refs_ok(
        #[trigger] s1.tasks@[i],
        s1.goals@,
        s1.tasks@,
    ) by {
        assert(task_refs_ok(s0.tasks@[i], s0.goals@, s0.tasks@));
    }
}

// ------------------------------------------------------------------
// Laws of the coordinator.
// ------------------------------------------------------------------

/// After a cascading goal deletion, no task references the goal, no habit's
/// decoded linked-goals list contains it, and no goal row carries it.
pub proof fn lemma_cascade_clears_references(s0: Store, s1: Store, g: Seq<char>)
    requires
        s1.goals@ == goals_without(s0.goals@, g),
        habits_scrubbed(s0.habits@, s1.habits@, g),
        s1.tasks@ == cascade_remaining(s0.tasks@, g),
    ensures
        forall|i: int| 0 <= i < s1.tasks@.len() ==> !task_targets(#[trigger] s1.tasks@[i], g),
        forall|i: int|
            0 <= i < s1.habits@.len() ==> match parsed_linked_goals(
                (#[trigger] s1.habits@[i]).linked_goals@,
            ) {
                Some(ids) => !ids.contains(g),
                None => true,
            },
        !has_goal_id(s1.goals@, g),
{
    assert forall|i: int| 0 <= i < s1.tasks@.len() implies !task_targets(
        #[trigger] s1.tasks@[i],
        g,
    ) by {
        lemma_cascade_elements(s0.tasks@, g, i);
    }
    assert forall|i: int| 0 <= i < s1.habits@.len() implies match parsed_linked_goals(
        (#[trigger] s1.habits@[i]).linked_goals@,
    ) {
        Some(ids) => !ids.contains(g),
        None => true,
    } by {
        assert(scrubbed_habit(s0.habits@[i], s1.habits@[i], g));
        match parsed_linked_goals(s0.habits@[i].linked_goals@) {
            Some(ids) => {
                if ids.contains(g) {
                    crate::linked_goals::lemma_without_id_gone(ids, g);
                }
            },
            None => {},
        }
    }
    if has_goal_id(s1.goals@, g) {
        let i = choose|i: int| 0 <= i < s1.goals@.len() && (#[trigger] s1.goals@[i].id@) == g;
        lemma_goals_without_element(s0.goals@, g, i);
    }
}

/// After a nullifying goal deletion, every task that referenced the goal
/// still exists (same id, same position) with its reference cleared, and
/// every other task is untouched.
pub proof fn lemma_nullify_preserves_tasks(ts0: Seq<Task>, ts1: Seq<Task>, g: Seq<char>)
    requires
        tasks_nullified(ts0, ts1, g),
    ensures
        ts1.len() == ts0.len(),
        forall|i: int|
            0 <= i < ts0.len() && task_targets(#[trigger] ts0[i], g) ==> ts1[i].goal_id is None,
        forall|i: int|
            0 <= i < ts0.len() && !task_targets(#[trigger] ts0[i], g) ==> ts1[i] == ts0[i],
        forall|i: int| 0 <= i < ts0.len() ==> (#[trigger] ts1[i]).id == ts0[i].id,
{
}

/// Deleting a goal id that no goal row carries reports `false` through the
/// operation's contract and leaves every table unchanged, under either
/// strategy.
pub proof fn lemma_delete_absent_goal_unchanged(s0: Store, s1: Store, g: Seq<char>, cascade: bool)
    requires
        s0.wf(),
        !has_goal_id(s0.goals@, g),
        s1.goals@ == goals_without(s0.goals@, g),
        habits_scrubbed(s0.habits@, s1.habits@, g),
        cascade ==> s1.tasks@ == cascade_remaining(s0.tasks@, g),
        !cascade ==> tasks_nullified(s0.tasks@, s1.tasks@, g),
    ensures
        s1.goals@ == s0.goals@,
        s1.tasks@ == s0.tasks@,
        s1.habits@ == s0.habits@,
{
    lemma_goals_without_absent(s0.goals@, g);

    // No task targets the absent goal.
    assert forall|i: int| 0 <= i < s0.tasks@.len() implies !task_targets(
        #[trigger] s0.tasks@[i],
        g,
    ) by {
        assert(task_refs_ok(s0.tasks@[i], s0.goals@, s0.tasks@));
        match s0.tasks@[i].goal_id {
            Some(x) => {
                if x@ == g {
                    assert(has_goal_id(s0.goals@, g));
                }
            },
            None => {},
        }
    }

    if cascade {
        assert forall|i: int| 0 <= i < s0.tasks@.len() implies keep_task(
            #[trigger] s0.tasks@[i],
            s0.tasks@,
            g,
        ) by {
            assert(task_refs_ok(s0.tasks@[i], s0.goals@, s0.tasks@));
        }
        lemma_prune_rec_all_kept(s0.tasks@, s0.tasks@, g);
        lemma_prune_iter_stable(s0.tasks@, g, s0.tasks@.len() as nat);
    } else {
        assert forall|i: int| 0 <= i < s0.tasks@.len() implies (#[trigger] s1.tasks@[i])
            == s0.tasks@[i] by {}
        assert(s1.tasks@ =~= s0.tasks@);
    }

    // No habit's decoded list contains the absent goal, so the scrub leaves
    // every row alone.
    assert forall|i: int| 0 <= i < s0.habits@.len() implies (#[trigger] s1.habits@[i])
        == s0.habits@[i] by {
        assert(scrubbed_habit(s0.habits@[i], s1.habits@[i], g));
        assert(habit_links_ok(s0.habits@[i], s0.goals@));
        match parsed_linked_goals(s0.habits@[i].linked_goals@) {
            Some(ids) => {
                if ids.contains(g) {
                    let k = choose|k: int| 0 <= k < ids.len() && ids[k] == g;
                    assert(has_goal_id(s0.goals@, ids[k]));
                }
            },
            None => {},
        }
    }
    assert(s1.habits@ =~= s0.habits@);
}

/// After a habit deletion, no completion row references the habit, and no
/// habit row carries its id.
pub proof fn lemma_delete_habit_clears_completions(s0: Store, s1: Store, h: Seq<char>)
    requires
        s1.habits@ == habits_without(s0.habits@, h),
        s1.completions@ == completions_without_habit(s0.completions@, h),
    ensures
        forall|i: int|
            0 <= i < s1.completions@.len() ==> (#[trigger] s1.completions@[i]).habit_id@ != h,
        !has_habit_id(s1.habits@, h),
{
    assert forall|i: int|
        0 <= i < s1.completions@.len() implies (#[trigger] s1.completions@[i]).habit_id@
        != h by {
        lemma_completions_without_element(s0.completions@, h, i);
    }
    if has_habit_id(s1.habits@, h) {
        let i = choose|i: int| 0 <= i < s1.habits@.len() && (#[trigger] s1.habits@[i].id@) == h;
        lemma_habits_without_element(s0.habits@, h, i);
    }
}

} // verus!

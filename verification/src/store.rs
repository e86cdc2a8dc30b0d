//! The in-memory data set: every entity table plus the settings singleton,
//! with the referential invariants the storage schema promises. Operations on
//! the store require and preserve `wf`.

use vstd::prelude::*;

verus! {

use crate::linked_goals::{parse_linked_goals, parsed_linked_goals};
use crate::records::{Goal, HabitCompletionData, HabitData, Task};
use crate::settings::AppSettings;
use crate::text::str_eq;

/// The whole data set.
#[derive(Debug, PartialEq, Eq)]
pub struct Store {
    pub goals: Vec<Goal>,
    pub tasks: Vec<Task>,
    pub habits: Vec<HabitData>,
    pub completions: Vec<HabitCompletionData>,
    pub settings: Option<AppSettings>,
}

/// Some goal row carries this id.
pub open spec fn has_goal_id(gs: Seq<Goal>, id: Seq<char>) -> bool {
    exists|i: int| 0 <= i < gs.len() && (#[trigger] gs[i].id@) == id
}

/// Some task row carries this id.
pub open spec fn has_task_id(ts: Seq<Task>, id: Seq<char>) -> bool {
    exists|i: int| 0 <= i < ts.len() && (#[trigger] ts[i].id@) == id
}

/// Some habit row carries this id.
pub open spec fn has_habit_id(hs: Seq<HabitData>, id: Seq<char>) -> bool {
    exists|i: int| 0 <= i < hs.len() && (#[trigger] hs[i].id@) == id
}

/// No two goal rows share an id.
pub open spec fn goals_distinct(gs: Seq<Goal>) -> bool {
    forall|i: int, j: int|
        0 <= i < j < gs.len() ==> (#[trigger] gs[i].id@) != (#[trigger] gs[j].id@)
}

/// No two task rows share an id.
pub open spec fn tasks_distinct(ts: Seq<Task>) -> bool {
    forall|i: int, j: int|
        0 <= i < j < ts.len() ==> (#[trigger] ts[i].id@) != (#[trigger] ts[j].id@)
}

/// No two habit rows share an id.
pub open spec fn habits_distinct(hs: Seq<HabitData>) -> bool {
    forall|i: int, j: int|
        0 <= i < j < hs.len() ==> (#[trigger] hs[i].id@) != (#[trigger] hs[j].id@)
}

/// No two completion rows share an id.
pub open spec fn completions_distinct(cs: Seq<HabitCompletionData>) -> bool {
    forall|i: int, j: int|
        0 <= i < j < cs.len() ==> (#[trigger] cs[i].id@) != (#[trigger] cs[j].id@)
}

/// At most one completion per habit and date.
pub open spec fn completion_keys_distinct(cs: Seq<HabitCompletionData>) -> bool {
    forall|i: int, j: int|
        0 <= i < j < cs.len() ==> !((#[trigger] cs[i].habit_id@) == (#[trigger] cs[j].habit_id@)
            && cs[i].date@ == cs[j].date@)
}

/// A task's hard references point at existing rows.
pub open spec fn task_refs_ok(t: Task, gs: Seq<Goal>, ts: Seq<Task>) -> bool {
    &&& match t.goal_id {
        Some(g) => has_goal_id(gs, g@),
        None => true,
    }
    &&& match t.parent_task_id {
        Some(p) => has_task_id(ts, p@),
        None => true,
    }
}

/// A completion's hard reference points at an existing habit.
pub open spec fn completion_ref_ok(c: HabitCompletionData, hs: Seq<HabitData>) -> bool {
    has_habit_id(hs, c.habit_id@)
}

/// Where a habit's linked-goals field decodes, every id in it names an
/// existing goal. A field that does not decode constrains nothing; the
/// coordinator leaves such rows alone.
pub open spec fn habit_links_ok(h: HabitData, gs: Seq<Goal>) -> bool {
    match parsed_linked_goals(h.linked_goals@) {
        Some(ids) => forall|k: int| 0 <= k < ids.len() ==> has_goal_id(gs, #[trigger] ids[k]),
        None => true,
    }
}

impl Store {
    /// The storage invariants: unique ids, unique completion keys, and no
    /// dangling hard or soft reference.
    pub open spec fn wf(self) -> bool {
        &&& goals_distinct(self.goals@)
        &&& tasks_distinct(self.tasks@)
        &&& habits_distinct(self.habits@)
        &&& completions_distinct(self.completions@)
        &&& forall|i: int|
            0 <= i < self.tasks@.len() ==> task_refs_ok(
                #[trigger] self.tasks@[i],
                self.goals@,
                self.tasks@,
            )
        &&& forall|i: int|
            0 <= i < self.completions@.len() ==> completion_ref_ok(
                #[trigger] self.completions@[i],
                self.habits@,
            )
        &&& completion_keys_distinct(self.completions@)
        &&& forall|i: int|
            0 <= i < self.habits@.len() ==> habit_links_ok(#[trigger] self.habits@[i], self.goals@)
    }

    /// An empty store, trivially well formed.
    pub fn new() -> (s: Store)
        ensures
            s.wf(),
            s.goals@.len() == 0,
            s.tasks@.len() == 0,
            s.habits@.len() == 0,
            s.completions@.len() == 0,
            s.settings is None,
    {
        Store {
            goals: Vec::new(),
            tasks: Vec::new(),
            habits: Vec::new(),
            completions: Vec::new(),
            settings: None,
        }
    }
}

/// Decides `has_goal_id`.
pub fn contains_goal(goals: &Vec<Goal>, id: &String) -> (r: bool)
    ensures
        r == has_goal_id(goals@, id@),
{
    let mut i: usize = 0;
    while i < goals.len()
        invariant
            i <= goals.len(),
            forall|j: int| 0 <= j < i ==> (#[trigger] goals@[j].id@) != id@,
        decreases goals.len() - i,
    {
        if str_eq(&goals[i].id, id) {
            return true;
        }
        i += 1;
    }
    false
}

/// Decides `has_task_id`.
pub fn contains_task(tasks: &Vec<Task>, id: &String) -> (r: bool)
    ensures
        r == has_task_id(tasks@, id@),
{
    let mut i: usize = 0;
    while i < tasks.len()
        invariant
            i <= tasks.len(),
            forall|j: int| 0 <= j < i ==> (#[trigger] tasks@[j].id@) != id@,
        decreases tasks.len() - i,
    {
        if str_eq(&tasks[i].id, id) {
            return true;
        }
        i += 1;
    }
    false
}

/// Decides `has_habit_id`.
pub fn contains_habit(habits: &Vec<HabitData>, id: &String) -> (r: bool)
    ensures
        r == has_habit_id(habits@, id@),
{
    let mut i: usize = 0;
    while i < habits.len()
        invariant
            i <= habits.len(),
            forall|j: int| 0 <= j < i ==> (#[trigger] habits@[j].id@) != id@,
        decreases habits.len() - i,
    {
        if str_eq(&habits[i].id, id) {
            return true;
        }
        i += 1;
    }
    false
}

/// Decides `goals_distinct`.
pub fn check_goal_ids(goals: &Vec<Goal>) -> (r: bool)
    ensures
        r == goals_distinct(goals@),
{
    let mut i: usize = 0;
    while i < goals.len()
        invariant
            i <= goals.len(),
            forall|a: int, b: int|
                0 <= a < b < i ==> (#[trigger] goals@[a].id@) != (#[trigger] goals@[b].id@),
        decreases goals.len() - i,
    {
        let mut j: usize = 0;
        while j < i
            invariant
                j <= i < goals.len(),
                forall|b: int| 0 <= b < j ==> (#[trigger] goals@[b].id@) != goals@[i as int].id@,
            decreases i - j,
        {
            if str_eq(&goals[j].id, &goals[i].id) {
                return false;
            }
            j += 1;
        }
        i += 1;
    }
    true
}

/// Decides `tasks_distinct`.
pub fn check_task_ids(tasks: &Vec<Task>) -> (r: bool)
    ensures
        r == tasks_distinct(tasks@),
{
    let mut i: usize = 0;
    while i < tasks.len()
        invariant
            i <= tasks.len(),
            forall|a: int, b: int|
                0 <= a < b < i ==> (#[trigger] tasks@[a].id@) != (#[trigger] tasks@[b].id@),
        decreases tasks.len() - i,
    {
        let mut j: usize = 0;
        while j < i
            invariant
                j <= i < tasks.len(),
                forall|b: int| 0 <= b < j ==> (#[trigger] tasks@[b].id@) != tasks@[i as int].id@,
            decreases i - j,
        {
            if str_eq(&tasks[j].id, &tasks[i].id) {
                return false;
            }
            j += 1;
        }
        i += 1;
    }
    true
}

/// Decides `habits_distinct`.
pub fn check_habit_ids(habits: &Vec<HabitData>) -> (r: bool)
    ensures
        r == habits_distinct(habits@),
{
    let mut i: usize = 0;
    while i < habits.len()
        invariant
            i <= habits.len(),
            forall|a: int, b: int|
                0 <= a < b < i ==> (#[trigger] habits@[a].id@) != (#[trigger] habits@[b].id@),
        decreases habits.len() - i,
    {
        let mut j: usize = 0;
        while j < i
            invariant
                j <= i < habits.len(),
                forall|b: int| 0 <= b < j ==> (#[trigger] habits@[b].id@) != habits@[i as int].id@,
            decreases i - j,
        {
            if str_eq(&habits[j].id, &habits[i].id) {
                return false;
            }
            j += 1;
        }
        i += 1;
    }
    true
}

/// Decides `completions_distinct`.
pub fn check_completion_ids(cs: &Vec<HabitCompletionData>) -> (r: bool)
    ensures
        r == completions_distinct(cs@),
{
    let mut i: usize = 0;
    while i < cs.len()
        invariant
            i <= cs.len(),
            forall|a: int, b: int|
                0 <= a < b < i ==> (#[trigger] cs@[a].id@) != (#[trigger] cs@[b].id@),
        decreases cs.len() - i,
    {
        let mut j: usize = 0;
        while j < i
            invariant
                j <= i < cs.len(),
                forall|b: int| 0 <= b < j ==> (#[trigger] cs@[b].id@) != cs@[i as int].id@,
            decreases i - j,
        {
            if str_eq(&cs[j].id, &cs[i].id) {
                return false;
            }
            j += 1;
        }
        i += 1;
    }
    true
}

/// Decides `completion_keys_distinct`.
pub fn check_completion_keys(cs: &Vec<HabitCompletionData>) -> (r: bool)
    ensures
        r == completion_keys_distinct(cs@),
{
    let mut i: usize = 0;
    while i < cs.len()
        invariant
            i <= cs.len(),
            forall|a: int, b: int|
                0 <= a < b < i ==> !((#[trigger] cs@[a].habit_id@) == (#[trigger] cs@[b].habit_id@)
                    && cs@[a].date@ == cs@[b].date@),
        decreases cs.len() - i,
    {
        let mut j: usize = 0;
        while j < i
            invariant
                j <= i < cs.len(),
                forall|b: int|
                    0 <= b < j ==> !((#[trigger] cs@[b].habit_id@) == cs@[i as int].habit_id@
                        && cs@[b].date@ == cs@[i as int].date@),
            decreases i - j,
        {
            if str_eq(&cs[j].habit_id, &cs[i].habit_id) && str_eq(&cs[j].date, &cs[i].date) {
                return false;
            }
            j += 1;
        }
        i += 1;
    }
    true
}

/// Decides whether every task's hard references resolve.
pub fn check_task_refs(tasks: &Vec<Task>, goals: &Vec<Goal>) -> (r: bool)
    ensures
        r == forall|i: int|
            0 <= i < tasks@.len() ==> task_refs_ok(#[trigger] tasks@[i], goals@, tasks@),
{
    let mut i: usize = 0;
    while i < tasks.len()
        invariant
            i <= tasks.len(),
            forall|a: int| 0 <= a < i ==> task_refs_ok(#[trigger] tasks@[a], goals@, tasks@),
        decreases tasks.len() - i,
    {
        let goal_ok = match &tasks[i].goal_id {
            Some(x) => contains_goal(goals, x),
            None => true,
        };
        if !goal_ok {
            return false;
        }
        let parent_ok = match &tasks[i].parent_task_id {
            Some(p) => contains_task(tasks, p),
            None => true,
        };
        if !parent_ok {
            return false;
        }
        i += 1;
    }
    true
}

/// Decides whether every completion's habit reference resolves.
pub fn check_completion_refs(cs: &Vec<HabitCompletionData>, habits: &Vec<HabitData>) -> (r: bool)
    ensures
        r == forall|i: int|
            0 <= i < cs@.len() ==> completion_ref_ok(#[trigger] cs@[i], habits@),
{
    let mut i: usize = 0;
    while i < cs.len()
        invariant
            i <= cs.len(),
            forall|a: int| 0 <= a < i ==> completion_ref_ok(#[trigger] cs@[a], habits@),
        decreases cs.len() - i,
    {
        if !contains_habit(habits, &cs[i].habit_id) {
            return false;
        }
        i += 1;
    }
    true
}

/// Decides whether every habit's decoded linked-goals ids resolve.
pub fn check_habit_links(habits: &Vec<HabitData>, goals: &Vec<Goal>) -> (r: bool)
    ensures
        r == forall|i: int|
            0 <= i < habits@.len() ==> habit_links_ok(#[trigger] habits@[i], goals@),
{
    let mut i: usize = 0;
    while i < habits.len()
        invariant
            i <= habits.len(),
            forall|a: int| 0 <= a < i ==> habit_links_ok(#[trigger] habits@[a], goals@),
        decreases habits.len() - i,
    {
        match parse_linked_goals(&habits[i].linked_goals) {
            Some(ids) => {
                let ghost decoded = crate::text::strings_view(ids@);
                let mut k: usize = 0;
                while k < ids.len()
                    invariant
                        k <= ids.len(),
                        i < habits@.len(),
                        decoded == crate::text::strings_view(ids@),
                        parsed_linked_goals(habits@[i as int].linked_goals@) == Some(decoded),
                        forall|m: int| 0 <= m < k ==> has_goal_id(goals@, #[trigger] decoded[m]),
                    decreases ids.len() - k,
                {
                    if !contains_goal(goals, &ids[k]) {
                        proof {
                            assert(decoded[k as int] == ids@[k as int]@);
                            assert(!habit_links_ok(habits@[i as int], goals@)) by {
                                if habit_links_ok(habits@[i as int], goals@) {
                                    assert(match parsed_linked_goals(
                                        habits@[i as int].linked_goals@,
                                    ) {
                                        Some(ids2) => forall|m: int|
                                            0 <= m < ids2.len() ==> has_goal_id(
                                                goals@,
                                                #[trigger] ids2[m],
                                            ),
                                        None => true,
                                    });
                                    assert(has_goal_id(goals@, decoded[k as int]));
                                }
                            }
                        }
                        return false;
                    }
                    proof {
                        assert(decoded[k as int] == ids@[k as int]@);
                    }
                    k += 1;
                }
                proof {
                    assert(habit_links_ok(habits@[i as int], goals@));
                }
            },
            None => {},
        }
        i += 1;
    }
    true
}

impl Store {
    /// Decides the storage invariants; the surrounding application runs this
    /// before handing a loaded data set to the operations that require them.
    pub fn check_wf(&self) -> (r: bool)
        ensures
            r == self.wf(),
    {
        check_goal_ids(&self.goals) && check_task_ids(&self.tasks) && check_habit_ids(&self.habits)
            && check_completion_ids(&self.completions) && check_task_refs(
            &self.tasks,
            &self.goals,
        ) && check_completion_refs(&self.completions, &self.habits) && check_completion_keys(
            &self.completions,
        ) && check_habit_links(&self.habits, &self.goals)
    }
}

} // verus!

//! The bulk transfer engine: one self-describing snapshot of the whole data
//! set, produced and consumed as a single atomic unit.
//!
//! Export reads every table and the settings singleton into a versioned
//! document; it fails, without partial output, when settings were never
//! saved. Import validates the document completely before touching anything,
//! then replaces every table and the settings; any rejected document leaves
//! the store exactly as it was.

use vstd::prelude::*;

verus! {

use crate::linked_goals::{parse_linked_goals, parsed_linked_goals};
use crate::records::{
    spec_data_to_goal,
    spec_data_to_task,
    spec_goal_to_data,
    spec_task_to_data,
    Goal,
    GoalData,
    HabitCompletionData,
    HabitData,
    Task,
    TaskData,
};
use crate::settings::AppSettings;
use crate::store::{
    check_completion_ids,
    check_completion_keys,
    check_completion_refs,
    check_habit_ids,
    completion_keys_distinct,
    completions_distinct,
    habits_distinct,
    has_goal_id,
    has_habit_id,
    tasks_distinct,
    Store,
};
use crate::text::str_eq;

/// What the snapshot says about itself.
#[derive(Debug, PartialEq, Eq)]
pub struct ExportMetadata {
    pub export_date: String,
    pub version: String,
    pub total_records: usize,
}

/// The whole data set as one document.
#[derive(Debug, PartialEq, Eq)]
pub struct ExportData {
    pub settings: AppSettings,
    pub goals: Vec<GoalData>,
    pub tasks: Vec<TaskData>,
    pub habits: Vec<HabitData>,
    pub habit_completions: Vec<HabitCompletionData>,
    pub export_metadata: ExportMetadata,
}

/// How many rows of each kind an import installed.
#[derive(Clone, Copy, Debug, PartialEq, Eq, Structural)]
pub struct ImportSummary {
    pub goals: usize,
    pub tasks: usize,
    pub habits: usize,
    pub habit_completions: usize,
}

/// Why an export produced nothing.
#[derive(Clone, Copy, Debug, PartialEq, Eq, Structural)]
pub enum ExportError {
    /// Settings have never been saved; exporting would bake in defaults.
    SettingsNotInitialized,
}

/// Why an import document was rejected. Every rejection happens before any
/// mutation.
#[derive(Clone, Copy, Debug, PartialEq, Eq, Structural)]
pub enum ImportError {
    DuplicateGoalId,
    DuplicateTaskId,
    UnknownTaskGoal,
    DuplicateHabitId,
    UnknownLinkedGoal,
    DuplicateCompletionId,
    UnknownCompletionHabit,
    DuplicateCompletionKey,
}

impl ExportError {
    /// A caller-facing description.
    pub fn message(&self) -> (r: String)
        ensures
            r@ == "Settings not initialized"@,
    {
        "Settings not initialized".to_owned()
    }
}

impl ImportError {
    /// A caller-facing description naming the failed validation step.
    pub fn message(&self) -> (r: String)
        ensures
            *self == ImportError::DuplicateGoalId ==> r@ == "duplicate goal id"@,
            *self == ImportError::DuplicateTaskId ==> r@ == "duplicate task id"@,
            *self == ImportError::UnknownTaskGoal ==> r@ == "task references an unknown goal"@,
            *self == ImportError::DuplicateHabitId ==> r@ == "duplicate habit id"@,
            *self == ImportError::UnknownLinkedGoal ==> r@
                == "habit links to an unknown goal"@,
            *self == ImportError::DuplicateCompletionId ==> r@ == "duplicate completion id"@,
            *self == ImportError::UnknownCompletionHabit ==> r@
                == "completion references an unknown habit"@,
            *self == ImportError::DuplicateCompletionKey ==> r@
                == "duplicate completion for one habit and date"@,
    {
        match self {
            ImportError::DuplicateGoalId => "duplicate goal id".to_owned(),
            ImportError::DuplicateTaskId => "duplicate task id".to_owned(),
            ImportError::UnknownTaskGoal => "task references an unknown goal".to_owned(),
            ImportError::DuplicateHabitId => "duplicate habit id".to_owned(),
            ImportError::UnknownLinkedGoal => "habit links to an unknown goal".to_owned(),
            ImportError::DuplicateCompletionId => "duplicate completion id".to_owned(),
            ImportError::UnknownCompletionHabit => "completion references an unknown habit"
                .to_owned(),
            ImportError::DuplicateCompletionKey => "duplicate completion for one habit and date"
                .to_owned(),
        }
    }
}

// ------------------------------------------------------------------
// Row mappings between the store and the snapshot.
// ------------------------------------------------------------------

/// The goal table in snapshot form.
pub open spec fn goals_to_data(gs: Seq<Goal>) -> Seq<GoalData>
    decreases gs.len(),
{
    if gs.len() == 0 {
        Seq::empty()
    } else {
        goals_to_data(gs.drop_last()).push(spec_goal_to_data(gs.last()))
    }
}

/// The goal table a snapshot installs.
pub open spec fn data_to_goals(gs: Seq<GoalData>) -> Seq<Goal>
    decreases gs.len(),
{
    if gs.len() == 0 {
        Seq::empty()
    } else {
        data_to_goals(gs.drop_last()).push(spec_data_to_goal(gs.last()))
    }
}

/// The task table in snapshot form.
pub open spec fn tasks_to_data(ts: Seq<Task>) -> Seq<TaskData>
    decreases ts.len(),
{
    if ts.len() == 0 {
        Seq::empty()
    } else {
        tasks_to_data(ts.drop_last()).push(spec_task_to_data(ts.last()))
    }
}

/// The task table a snapshot installs.
pub open spec fn data_to_tasks(ts: Seq<TaskData>) -> Seq<Task>
    decreases ts.len(),
{
    if ts.len() == 0 {
        Seq::empty()
    } else {
        data_to_tasks(ts.drop_last()).push(spec_data_to_task(ts.last()))
    }
}

/// A task after a round trip through the snapshot: the parent reference is
/// gone and `updated_at` is normalized to the creation time.
pub open spec fn normalize_task(t: Task) -> Task {
    Task { parent_task_id: None, updated_at: t.created_at, ..t }
}

/// The task table after a round trip through the snapshot.
pub open spec fn normalized_tasks(ts: Seq<Task>) -> Seq<Task>
    decreases ts.len(),
{
    if ts.len() == 0 {
        Seq::empty()
    } else {
        normalized_tasks(ts.drop_last()).push(normalize_task(ts.last()))
    }
}

/// Installed goals carry exactly the snapshot's fields.
pub proof fn lemma_data_to_goals_index(gs: Seq<GoalData>, i: int)
    requires
        0 <= i < gs.len(),
    ensures
        data_to_goals(gs).len() == gs.len(),
        data_to_goals(gs)[i] == spec_data_to_goal(gs[i]),
    decreases gs.len(),
{
    lemma_data_to_goals_len(gs);
    if i < gs.len() - 1 {
        lemma_data_to_goals_index(gs.drop_last(), i);
    }
}

/// Installed tables have one row per snapshot row.
pub proof fn lemma_data_to_goals_len(gs: Seq<GoalData>)
    ensures
        data_to_goals(gs).len() == gs.len(),
    decreases gs.len(),
{
    if gs.len() > 0 {
        lemma_data_to_goals_len(gs.drop_last());
    }
}

/// Installed tasks carry exactly the snapshot's fields.
pub proof fn lemma_data_to_tasks_index(ts: Seq<TaskData>, i: int)
    requires
        0 <= i < ts.len(),
    ensures
        data_to_tasks(ts).len() == ts.len(),
        data_to_tasks(ts)[i] == spec_data_to_task(ts[i]),
    decreases ts.len(),
{
    lemma_data_to_tasks_len(ts);
    if i < ts.len() - 1 {
        lemma_data_to_tasks_index(ts.drop_last(), i);
    }
}

pub proof fn lemma_data_to_tasks_len(ts: Seq<TaskData>)
    ensures
        data_to_tasks(ts).len() == ts.len(),
    decreases ts.len(),
{
    if ts.len() > 0 {
        lemma_data_to_tasks_len(ts.drop_last());
    }
}

/// Exported goals carry exactly the table's fields.
pub proof fn lemma_goals_to_data_index(gs: Seq<Goal>, i: int)
    requires
        0 <= i < gs.len(),
    ensures
        goals_to_data(gs).len() == gs.len(),
        goals_to_data(gs)[i] == spec_goal_to_data(gs[i]),
    decreases gs.len(),
{
    lemma_goals_to_data_len(gs);
    if i < gs.len() - 1 {
        lemma_goals_to_data_index(gs.drop_last(), i);
    }
}

pub proof fn lemma_goals_to_data_len(gs: Seq<Goal>)
    ensures
        goals_to_data(gs).len() == gs.len(),
    decreases gs.len(),
{
    if gs.len() > 0 {
        lemma_goals_to_data_len(gs.drop_last());
    }
}

/// Exported tasks carry exactly the table's fields.
pub proof fn lemma_tasks_to_data_index(ts: Seq<Task>, i: int)
    requires
        0 <= i < ts.len(),
    ensures
        tasks_to_data(ts).len() == ts.len(),
        tasks_to_data(ts)[i] == spec_task_to_data(ts[i]),
    decreases ts.len(),
{
    lemma_tasks_to_data_len(ts);
    if i < ts.len() - 1 {
        lemma_tasks_to_data_index(ts.drop_last(), i);
    }
}

pub proof fn lemma_tasks_to_data_len(ts: Seq<Task>)
    ensures
        tasks_to_data(ts).len() == ts.len(),
    decreases ts.len(),
{
    if ts.len() > 0 {
        lemma_tasks_to_data_len(ts.drop_last());
    }
}

// ------------------------------------------------------------------
// Validation: what a snapshot must satisfy before it may be installed.
// ------------------------------------------------------------------

/// Some snapshot goal row carries this id.
pub open spec fn has_goal_data_id(gs: Seq<GoalData>, id: Seq<char>) -> bool {
    exists|i: int| 0 <= i < gs.len() && (#[trigger] gs[i].id@) == id
}

/// No two snapshot goal rows share an id.
pub open spec fn goal_data_ids_distinct(gs: Seq<GoalData>) -> bool {
    forall|i: int, j: int|
        0 <= i < j < gs.len() ==> (#[trigger] gs[i].id@) != (#[trigger] gs[j].id@)
}

/// No two snapshot task rows share an id.
pub open spec fn task_data_ids_distinct(ts: Seq<TaskData>) -> bool {
    forall|i: int, j: int|
        0 <= i < j < ts.len() ==> (#[trigger] ts[i].id@) != (#[trigger] ts[j].id@)
}

/// Every snapshot task's goal reference names a snapshot goal.
pub open spec fn task_data_refs_ok(ts: Seq<TaskData>, gs: Seq<GoalData>) -> bool {
    forall|i: int|
        0 <= i < ts.len() ==> match (#[trigger] ts[i]).goal_id {
            Some(x) => has_goal_data_id(gs, x@),
            None => true,
        }
}

/// Every decoded linked-goals id in a snapshot habit names a snapshot goal.
pub open spec fn habit_data_links_ok(hs: Seq<HabitData>, gs: Seq<GoalData>) -> bool {
    forall|i: int|
        0 <= i < hs.len() ==> match parsed_linked_goals((#[trigger] hs[i]).linked_goals@) {
            Some(ids) => forall|k: int|
                0 <= k < ids.len() ==> has_goal_data_id(gs, #[trigger] ids[k]),
            None => true,
        }
}

/// Every snapshot completion references a snapshot habit.
pub open spec fn completion_data_refs_ok(
    cs: Seq<HabitCompletionData>,
    hs: Seq<HabitData>,
) -> bool {
    forall|i: int| 0 <= i < cs.len() ==> has_habit_id(hs, (#[trigger] cs[i]).habit_id@)
}

/// The first reason a snapshot is rejected, in validation order; `None` for
/// a snapshot that will be installed.
pub open spec fn doc_first_error(doc: ExportData) -> Option<ImportError> {
    if !goal_data_ids_distinct(doc.goals@) {
        Some(ImportError::DuplicateGoalId)
    } else if !task_data_ids_distinct(doc.tasks@) {
        Some(ImportError::DuplicateTaskId)
    } else if !task_data_refs_ok(doc.tasks@, doc.goals@) {
        Some(ImportError::UnknownTaskGoal)
    } else if !habits_distinct(doc.habits@) {
        Some(ImportError::DuplicateHabitId)
    } else if !habit_data_links_ok(doc.habits@, doc.goals@) {
        Some(ImportError::UnknownLinkedGoal)
    } else if !completions_distinct(doc.habit_completions@) {
        Some(ImportError::DuplicateCompletionId)
    } else if !completion_data_refs_ok(doc.habit_completions@, doc.habits@) {
        Some(ImportError::UnknownCompletionHabit)
    } else if !completion_keys_distinct(doc.habit_completions@) {
        Some(ImportError::DuplicateCompletionKey)
    } else {
        None
    }
}

// ------------------------------------------------------------------
// Executable validation.
// ------------------------------------------------------------------

/// Decides `has_goal_data_id`.
fn contains_goal_data(goals: &Vec<GoalData>, id: &String) -> (r: bool)
    ensures
        r == has_goal_data_id(goals@, id@),
{
    let mut i: usize = 0;
    while i < goals.len()
        invariant
            i <= goals.len(),
            forall|j: int| 0 <= j < i ==> (#[trigger] goals@[j].id@) != id@,
        decreases goals.len() - i,
    {
        if str_eq(&goals[i].id, id) {
            return true;
        }
        i += 1;
    }
    false
}

/// Decides `goal_data_ids_distinct`.
fn check_goal_data_ids(goals: &Vec<GoalData>) -> (r: bool)
    ensures
        r == goal_data_ids_distinct(goals@),
{
    let mut i: usize = 0;
    while i < goals.len()
        invariant
            i <= goals.len(),
            forall|a: int, b: int|
                0 <= a < b < i ==> (#[trigger] goals@[a].id@) != (#[trigger] goals@[b].id@),
        decreases goals.len() - i,
    {
        let mut j: usize = 0;
        while j < i
            invariant
                j <= i < goals.len(),
                forall|b: int| 0 <= b < j ==> (#[trigger] goals@[b].id@) != goals@[i as int].id@,
            decreases i - j,
        {
            if str_eq(&goals[j].id, &goals[i].id) {
                return false;
            }
            j += 1;
        }
        i += 1;
    }
    true
}

/// Decides `task_data_ids_distinct`.
fn check_task_data_ids(tasks: &Vec<TaskData>) -> (r: bool)
    ensures
        r == task_data_ids_distinct(tasks@),
{
    let mut i: usize = 0;
    while i < tasks.len()
        invariant
            i <= tasks.len(),
            forall|a: int, b: int|
                0 <= a < b < i ==> (#[trigger] tasks@[a].id@) != (#[trigger] tasks@[b].id@),
        decreases tasks.len() - i,
    {
        let mut j: usize = 0;
        while j < i
            invariant
                j <= i < tasks.len(),
                forall|b: int| 0 <= b < j ==> (#[trigger] tasks@[b].id@) != tasks@[i as int].id@,
            decreases i - j,
    {
            if str_eq(&tasks[j].id, &tasks[i].id) {
                return false;
            }
            j += 1;
        }
        i += 1;
    }
    true
}




/// Decides `task_data_refs_ok`.
fn check_task_refs(tasks: &Vec<TaskData>, goals: &Vec<GoalData>) -> (r: bool)
    ensures
        r == task_data_refs_ok(tasks@, goals@),
{
    let mut i: usize = 0;
    while i < tasks.len()
        invariant
            i <= tasks.len(),
            forall|a: int|
                0 <= a < i ==> match (#[trigger] tasks@[a]).goal_id {
                    Some(x) => has_goal_data_id(goals@, x@),
                    None => true,
                },
        decreases tasks.len() - i,
    {
        match &tasks[i].goal_id {
            Some(x) => {
                if !contains_goal_data(goals, x) {
                    return false;
                }
            },
            None => {},
        }
        i += 1;
    }
    true
}

/// Decides `habit_data_links_ok`.
fn check_habit_links(habits: &Vec<HabitData>, goals: &Vec<GoalData>) -> (r: bool)
    ensures
        r == habit_data_links_ok(habits@, goals@),
{
    let mut i: usize = 0;
    while i < habits.len()
        invariant
            i <= habits.len(),
            forall|a: int|
                0 <= a < i ==> match parsed_linked_goals(
                    (#[trigger] habits@[a]).linked_goals@,
                ) {
                    Some(ids) => forall|k: int|
                        0 <= k < ids.len() ==> has_goal_data_id(goals@, #[trigger] ids[k]),
                    None => true,
                },
        decreases habits.len() - i,
    {
        match parse_linked_goals(&habits[i].linked_goals) {
            Some(ids) => {
                let ghost decoded = crate::text::strings_view(ids@);
                let mut k: usize = 0;
                while k < ids.len()
                    invariant
                        k <= ids.len(),
                        i < habits@.len(),
                        decoded == crate::text::strings_view(ids@),
                        parsed_linked_goals(habits@[i as int].linked_goals@) == Some(decoded),
                        forall|m: int|
                            0 <= m < k ==> has_goal_data_id(goals@, #[trigger] decoded[m]),
                    decreases ids.len() - k,
                {
                    if !contains_goal_data(goals, &ids[k]) {
                        proof {
                            assert(decoded[k as int] == ids@[k as int]@);
                            assert(!has_goal_data_id(goals@, decoded[k as int]));
                            assert(!habit_data_links_ok(habits@, goals@)) by {
                                if habit_data_links_ok(habits@, goals@) {
                                    assert(match parsed_linked_goals(
                                        (habits@[i as int]).linked_goals@,
                                    ) {
                                        Some(ids2) => forall|m: int|
                                            0 <= m < ids2.len() ==> has_goal_data_id(
                                                goals@,
                                                #[trigger] ids2[m],
                                            ),
                                        None => true,
                                    });
                                }
                            }
                        }
                        return false;
                    }
                    proof {
                        assert(decoded[k as int] == ids@[k as int]@);
                    }
                    k += 1;
                }
            },
            None => {},
        }
        i += 1;
    }
    true
}


// ------------------------------------------------------------------
// The operations.
// ------------------------------------------------------------------

impl Store {
    /// Exports the whole data set as one document: the settings record,
    /// every table unfiltered, and metadata naming the export date, the
    /// format version and the total row count. Fails, producing nothing,
    /// when settings have never been saved.
    pub fn export_all(&self, export_date: String) -> (r: Result<ExportData, ExportError>)
        requires
            self.goals@.len() + self.tasks@.len() + self.habits@.len() + self.completions@.len()
                <= usize::MAX,
        ensures
            r is Err <==> self.settings is None,
            r matches Err(e) ==> e == ExportError::SettingsNotInitialized,
            r matches Ok(doc) ==> {
                &&& self.settings == Some(doc.settings)
                &&& doc.goals@ == goals_to_data(self.goals@)
                &&& doc.tasks@ == tasks_to_data(self.tasks@)
                &&& doc.habits@ == self.habits@
                &&& doc.habit_completions@ == self.completions@
                &&& doc.export_metadata.export_date == export_date
                &&& doc.export_metadata.version@ == "1.0.0"@
                &&& doc.export_metadata.total_records == self.goals@.len() + self.tasks@.len()
                    + self.habits@.len() + self.completions@.len()
            },
    {
        let settings = match &self.settings {
            Some(st) => st.clone(),
            None => {
                return Err(ExportError::SettingsNotInitialized);
            },
        };

        let mut goals: Vec<GoalData> = Vec::new();
        let mut i: usize = 0;
        proof {
            assert(self.goals@.take(0) =~= Seq::<Goal>::empty());
        }
        while i < self.goals.len()
            invariant
                i <= self.goals@.len(),
                goals@ == goals_to_data(self.goals@.take(i as int)),
            decreases self.goals@.len() - i,
        {
            proof {
                assert(self.goals@.take(i + 1).drop_last() =~= self.goals@.take(i as int));
                assert(self.goals@.take(i + 1).last() == self.goals@[i as int]);
            }
            goals.push(self.goals[i].to_data());
            i += 1;
        }
        proof {
            assert(self.goals@.take(self.goals@.len() as int) =~= self.goals@);
        }

        let mut tasks: Vec<TaskData> = Vec::new();
        let mut j: usize = 0;
        proof {
            assert(self.tasks@.take(0) =~= Seq::<Task>::empty());
        }
        while j < self.tasks.len()
            invariant
                j <= self.tasks@.len(),
                tasks@ == tasks_to_data(self.tasks@.take(j as int)),
            decreases self.tasks@.len() - j,
        {
            proof {
                assert(self.tasks@.take(j + 1).drop_last() =~= self.tasks@.take(j as int));
                assert(self.tasks@.take(j + 1).last() == self.tasks@[j as int]);
            }
            tasks.push(self.tasks[j].to_data());
            j += 1;
        }
        proof {
            assert(self.tasks@.take(self.tasks@.len() as int) =~= self.tasks@);
        }

        let mut habits: Vec<HabitData> = Vec::new();
        let mut k: usize = 0;
        while k < self.habits.len()
            invariant
                k <= self.habits@.len(),
                habits@ =~= self.habits@.take(k as int),
            decreases self.habits@.len() - k,
        {
            habits.push(self.habits[k].clone());
            k += 1;
        }
        proof {
            assert(self.habits@.take(self.habits@.len() as int) =~= self.habits@);
        }

        let mut habit_completions: Vec<HabitCompletionData> = Vec::new();
        let mut m: usize = 0;
        while m < self.completions.len()
            invariant
                m <= self.completions@.len(),
                habit_completions@ =~= self.completions@.take(m as int),
            decreases self.completions@.len() - m,
        {
            habit_completions.push(self.completions[m].clone());
            m += 1;
        }
        proof {
            assert(self.completions@.take(self.completions@.len() as int) =~= self.completions@);
        }

        proof {
            lemma_goals_to_data_len(self.goals@);
            lemma_tasks_to_data_len(self.tasks@);
        }
        let total_records = goals.len() + tasks.len() + habits.len() + habit_completions.len();

        Ok(ExportData {
            settings,
            goals,
            tasks,
            habits,
            habit_completions,
            export_metadata: ExportMetadata {
                export_date,
                version: "1.0.0".to_owned(),
                total_records,
            },
        })
    }

    /// Replaces the whole data set with a snapshot, atomically: the document
    /// is validated completely first, and a rejected document leaves every
    /// table and the settings exactly as they were. The result reports what
    /// was installed, or the first failed validation step.
    pub fn import_all(&mut self, doc: ExportData) -> (r: Result<ImportSummary, ImportError>)
        ensures
            r matches Err(e) ==> doc_first_error(doc) == Some(e) && *final(self) == *old(self),
            r is Ok <==> doc_first_error(doc) is None,
            r matches Ok(sum) ==> {
                &&& final(self).goals@ == data_to_goals(doc.goals@)
                &&& final(self).tasks@ == data_to_tasks(doc.tasks@)
                &&& final(self).habits@ == doc.habits@
                &&& final(self).completions@ == doc.habit_completions@
                &&& final(self).settings == Some(doc.settings)
                &&& final(self).wf()
                &&& sum.goals == doc.goals@.len()
                &&& sum.tasks == doc.tasks@.len()
                &&& sum.habits == doc.habits@.len()
                &&& sum.habit_completions == doc.habit_completions@.len()
            },
    {
        if !check_goal_data_ids(&doc.goals) {
            return Err(ImportError::DuplicateGoalId);
        }
        if !check_task_data_ids(&doc.tasks) {
            return Err(ImportError::DuplicateTaskId);
        }
        if !check_task_refs(&doc.tasks, &doc.goals) {
            return Err(ImportError::UnknownTaskGoal);
        }
        if !check_habit_ids(&doc.habits) {
            return Err(ImportError::DuplicateHabitId);
        }
        if !check_habit_links(&doc.habits, &doc.goals) {
            return Err(ImportError::UnknownLinkedGoal);
        }
        if !check_completion_ids(&doc.habit_completions) {
            return Err(ImportError::DuplicateCompletionId);
        }
        if !check_completion_refs(&doc.habit_completions, &doc.habits) {
            return Err(ImportError::UnknownCompletionHabit);
        }
        if !check_completion_keys(&doc.habit_completions) {
            return Err(ImportError::DuplicateCompletionKey);
        }

        let summary = ImportSummary {
            goals: doc.goals.len(),
            tasks: doc.tasks.len(),
            habits: doc.habits.len(),
            habit_completions: doc.habit_completions.len(),
        };

        let ExportData { settings, goals, tasks, habits, habit_completions, export_metadata } =
            doc;
        let ghost goals_v = goals@;
        let ghost tasks_v = tasks@;

        let mut new_goals: Vec<Goal> = Vec::new();
        let mut i: usize = 0;
        proof {
            assert(goals_v.take(0) =~= Seq::<GoalData>::empty());
        }
        while i < goals.len()
            invariant
                i <= goals@.len(),
                goals@ == goals_v,
                new_goals@ == data_to_goals(goals_v.take(i as int)),
            decreases goals@.len() - i,
        {
            proof {
                assert(goals_v.take(i + 1).drop_last() =~= goals_v.take(i as int));
                assert(goals_v.take(i + 1).last() == goals_v[i as int]);
            }
            new_goals.push(goals[i].clone().into_goal());
            i += 1;
        }
        proof {
            assert(goals_v.take(goals_v.len() as int) =~= goals_v);
        }

        let mut new_tasks: Vec<Task> = Vec::new();
        let mut j: usize = 0;
        proof {
            assert(tasks_v.take(0) =~= Seq::<TaskData>::empty());
        }
        while j < tasks.len()
            invariant
                j <= tasks@.len(),
                tasks@ == tasks_v,
                new_tasks@ == data_to_tasks(tasks_v.take(j as int)),
            decreases tasks@.len() - j,
        {
            proof {
                assert(tasks_v.take(j + 1).drop_last() =~= tasks_v.take(j as int));
                assert(tasks_v.take(j + 1).last() == tasks_v[j as int]);
            }
            new_tasks.push(tasks[j].clone().into_task());
            j += 1;
        }
        proof {
            assert(tasks_v.take(tasks_v.len() as int) =~= tasks_v);
        }

        self.goals = new_goals;
        self.tasks = new_tasks;
        self.habits = habits;
        self.completions = habit_completions;
        self.settings = Some(settings);

        proof {
            lemma_import_wf(*self, goals_v, tasks_v);
        }

        Ok(summary)
    }
}

/// A validated snapshot installs to a well-formed store.
proof fn lemma_import_wf(s1: Store, goals_v: Seq<GoalData>, tasks_v: Seq<TaskData>)
    requires
        goal_data_ids_distinct(goals_v),
        task_data_ids_distinct(tasks_v),
        task_data_refs_ok(tasks_v, goals_v),
        habits_distinct(s1.habits@),
        habit_data_links_ok(s1.habits@, goals_v),
        completions_distinct(s1.completions@),
        completion_data_refs_ok(s1.completions@, s1.habits@),
        completion_keys_distinct(s1.completions@),
        s1.goals@ == data_to_goals(goals_v),
        s1.tasks@ == data_to_tasks(tasks_v),
    ensures
        s1.wf(),
{
    let gs1 = s1.goals@;
    let ts1 = s1.tasks@;
    lemma_data_to_goals_len(goals_v);
    lemma_data_to_tasks_len(tasks_v);

    // Goals: the snapshot rows' ids carry over unchanged.
    assert forall|i: int, j: int|
        0 <= i < j < gs1.len() implies (#[trigger] gs1[i].id@) != (#[trigger] gs1[j].id@) by {
        lemma_data_to_goals_index(goals_v, i);
        lemma_data_to_goals_index(goals_v, j);
        assert(goals_v[i].id@ != goals_v[j].id@);
    }

    // Tasks: ids carry over; goal references were checked; parents are gone.
    lemma_data_to_tasks_len(tasks_v);
    assert forall|i: int, j: int|
        0 <= i < j < ts1.len() implies (#[trigger] ts1[i].id@) != (#[trigger] ts1[j].id@) by {
        lemma_data_to_tasks_index(tasks_v, i);
        lemma_data_to_tasks_index(tasks_v, j);
        assert(tasks_v[i].id@ != tasks_v[j].id@);
    }
    assert forall|i: int| 0 <= i < ts1.len() implies crate::store::task_refs_ok(
        #[trigger] ts1[i],
        gs1,
        ts1,
    ) by {
        lemma_data_to_tasks_index(tasks_v, i);
        match ts1[i].goal_id {
            Some(x) => {
                assert(ts1[i].goal_id == tasks_v[i].goal_id);
                assert(has_goal_data_id(goals_v, x@));
                let m = choose|m: int|
                    0 <= m < goals_v.len() && (#[trigger] goals_v[m].id@) == x@;
                lemma_data_to_goals_index(goals_v, m);
                assert(gs1[m].id@ == x@);
            },
            None => {},
        }
        assert(ts1[i].parent_task_id is None);
    }

    // Habit links: every decoded id names an installed goal.
    assert forall|i: int| 0 <= i < s1.habits@.len() implies crate::store::habit_links_ok(
        #[trigger] s1.habits@[i],
        gs1,
    ) by {
        match parsed_linked_goals(s1.habits@[i].linked_goals@) {
            Some(ids) => {
                assert forall|k: int| 0 <= k < ids.len() implies has_goal_id(
                    gs1,
                    #[trigger] ids[k],
                ) by {
                    assert(has_goal_data_id(goals_v, ids[k]));
                    let m = choose|m: int|
                        0 <= m < goals_v.len() && (#[trigger] goals_v[m].id@) == ids[k];
                    lemma_data_to_goals_index(goals_v, m);
                    assert(gs1[m].id@ == ids[k]);
                }
            },
            None => {},
        }
    }
}

// ------------------------------------------------------------------
// The round trip.
// ------------------------------------------------------------------

/// Importing a goal row that was just exported restores it exactly.
proof fn lemma_goal_round_trip(gs: Seq<Goal>)
    ensures
        data_to_goals(goals_to_data(gs)) == gs,
    decreases gs.len(),
{
    if gs.len() > 0 {
        lemma_goal_round_trip(gs.drop_last());
        lemma_goals_to_data_len(gs.drop_last());
        assert(goals_to_data(gs).drop_last() =~= goals_to_data(gs.drop_last()));
        assert(data_to_goals(goals_to_data(gs)) =~= gs);
    }
}

/// Importing a task row that was just exported restores it with its parent
/// reference gone and `updated_at` normalized.
proof fn lemma_task_round_trip(ts: Seq<Task>)
    ensures
        data_to_tasks(tasks_to_data(ts)) == normalized_tasks(ts),
    decreases ts.len(),
{
    if ts.len() > 0 {
        lemma_task_round_trip(ts.drop_last());
        lemma_tasks_to_data_len(ts.drop_last());
        assert(tasks_to_data(ts).drop_last() =~= tasks_to_data(ts.drop_last()));
        assert(data_to_tasks(tasks_to_data(ts)) =~= normalized_tasks(ts));
    }
}

/// An export of a well-formed store is always accepted by import, and what
/// import then installs is the exported store itself, except that each
/// task's parent reference is cleared and its `updated_at` equals its
/// `created_at`; habits, completions and settings come back identical.
pub proof fn lemma_round_trip(s: Store, doc: ExportData)
    requires
        s.wf(),
        s.settings == Some(doc.settings),
        doc.goals@ == goals_to_data(s.goals@),
        doc.tasks@ == tasks_to_data(s.tasks@),
        doc.habits@ == s.habits@,
        doc.habit_completions@ == s.completions@,
    ensures
        doc_first_error(doc) is None,
        data_to_goals(doc.goals@) == s.goals@,
        data_to_tasks(doc.tasks@) == normalized_tasks(s.tasks@),
{
    let gs = s.goals@;
    let ts = s.tasks@;

    lemma_goal_round_trip(gs);
    lemma_task_round_trip(ts);
    lemma_goals_to_data_len(gs);
    lemma_tasks_to_data_len(ts);

    // Exported goal ids are distinct.
    assert forall|i: int, j: int|
        0 <= i < j < doc.goals@.len() implies (#[trigger] doc.goals@[i].id@) != (
    #[trigger] doc.goals@[j].id@) by {
        lemma_goals_to_data_index(gs, i);
        lemma_goals_to_data_index(gs, j);
        assert(gs[i].id@ != gs[j].id@);
    }

    // Exported task ids are distinct, and their goal references resolve.
    lemma_tasks_to_data_len(ts);
    assert forall|i: int, j: int|
        0 <= i < j < doc.tasks@.len() implies (#[trigger] doc.tasks@[i].id@) != (
    #[trigger] doc.tasks@[j].id@) by {
        lemma_tasks_to_data_index(ts, i);
        lemma_tasks_to_data_index(ts, j);
        assert(ts[i].id@ != ts[j].id@);
    }
    assert forall|i: int| 0 <= i < doc.tasks@.len() implies match (
    #[trigger] doc.tasks@[i]).goal_id {
        Some(x) => has_goal_data_id(doc.goals@, x@),
        None => true,
    } by {
        lemma_tasks_to_data_index(ts, i);
        assert(crate::store::task_refs_ok(ts[i], gs, ts));
        match doc.tasks@[i].goal_id {
            Some(x) => {
                assert(doc.tasks@[i].goal_id == ts[i].goal_id);
                let m = choose|m: int| 0 <= m < gs.len() && (#[trigger] gs[m].id@) == x@;
                lemma_goals_to_data_index(gs, m);
                assert(doc.goals@[m].id@ == x@);
            },
            None => {},
        }
    }

    // Habit links resolve against the exported goals.
    assert forall|i: int| 0 <= i < doc.habits@.len() implies match parsed_linked_goals(
        (#[trigger] doc.habits@[i]).linked_goals@,
    ) {
        Some(ids) => forall|k: int|
            0 <= k < ids.len() ==> has_goal_data_id(doc.goals@, #[trigger] ids[k]),
        None => true,
    } by {
        assert(crate::store::habit_links_ok(s.habits@[i], gs));
        match parsed_linked_goals(doc.habits@[i].linked_goals@) {
            Some(ids) => {
                assert forall|k: int| 0 <= k < ids.len() implies has_goal_data_id(
                    doc.goals@,
                    #[trigger] ids[k],
                ) by {
                    assert(has_goal_id(gs, ids[k]));
                    let m = choose|m: int| 0 <= m < gs.len() && (#[trigger] gs[m].id@) == ids[k];
                    lemma_goals_to_data_index(gs, m);
                    assert(doc.goals@[m].id@ == ids[k]);
                }
            },
            None => {},
        }
    }
}

/// A snapshot holding two completions for the same habit and date is always
/// rejected, so (with `import_all`'s contract) it changes nothing.
pub proof fn lemma_duplicate_completion_rejected(doc: ExportData)
    requires
        exists|i: int, j: int|
            0 <= i < j < doc.habit_completions@.len() && (#[trigger] doc.habit_completions@[i]).habit_id@
                == (#[trigger] doc.habit_completions@[j]).habit_id@
                && doc.habit_completions@[i].date@ == doc.habit_completions@[j].date@,
    ensures
        doc_first_error(doc) is Some,
{
    if doc_first_error(doc) is None {
        assert(completion_keys_distinct(doc.habit_completions@));
        let (i, j) = choose|i: int, j: int|
            0 <= i < j < doc.habit_completions@.len() && (#[trigger] doc.habit_completions@[i]).habit_id@
                == (#[trigger] doc.habit_completions@[j]).habit_id@
                && doc.habit_completions@[i].date@ == doc.habit_completions@[j].date@;
        assert(!(doc.habit_completions@[i].habit_id@ == doc.habit_completions@[j].habit_id@
            && doc.habit_completions@[i].date@ == doc.habit_completions@[j].date@));
    }
}

} // verus!

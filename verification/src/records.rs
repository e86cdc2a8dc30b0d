//! Entity records as the storage layer holds them: goals, tasks, habits and
//! habit completions, plus the flattened row forms the snapshot document uses.
//!
//! A habit's `linked_goals` field keeps its stored, serialized form here: the
//! storage engine treats it as opaque text, and the integrity coordinator is
//! what maintains it. Amount fields are carried as decimal text for the same
//! reason: the core never computes with them, it only moves them.

use vstd::prelude::*;

verus! {

/// A goal row.
#[derive(Debug, PartialEq, Eq)]
pub struct Goal {
    pub id: String,
    pub title: String,
    pub description: String,
    pub notes: String,
    pub category: String,
    pub priority: String,
    pub status: String,
    pub color: String,
    pub icon: String,
    pub deadline: Option<String>,
    pub created_at: String,
    pub updated_at: String,
}

/// A task row. `goal_id` and `parent_task_id` are hard references.
#[derive(Debug, PartialEq, Eq)]
pub struct Task {
    pub id: String,
    pub title: String,
    pub done: bool,
    pub goal_id: Option<String>,
    pub parent_task_id: Option<String>,
    pub due_date: Option<String>,
    pub priority: String,
    pub created_at: String,
    pub updated_at: String,
}

/// A habit row in its stored form: `frequency_value` and `linked_goals` are
/// serialized text, `target_amount` is decimal text.
#[derive(Debug, PartialEq, Eq)]
pub struct HabitData {
    pub id: String,
    pub name: String,
    pub category: String,
    pub icon: String,
    pub color: String,
    pub target_amount: String,
    pub unit: String,
    pub frequency_type: String,
    pub frequency_value: String,
    pub priority: String,
    pub notes: String,
    pub linked_goals: String,
    pub start_date: String,
    pub reminder_enabled: bool,
    pub reminder_time: String,
    pub created_at: String,
    pub updated_at: String,
}

/// A habit-completion row; `habit_id` is a hard reference and `(habit_id,
/// date)` is unique.
#[derive(Debug, PartialEq, Eq)]
pub struct HabitCompletionData {
    pub id: String,
    pub habit_id: String,
    pub date: String,
    pub completed: bool,
    pub actual_amount: String,
    pub target_amount: String,
    pub completed_at: Option<String>,
    pub note: String,
    pub mood: Option<String>,
    pub difficulty: Option<String>,
    pub skipped: bool,
    pub created_at: String,
    pub updated_at: String,
}

/// A goal row as the snapshot document carries it.
#[derive(Debug, PartialEq, Eq)]
pub struct GoalData {
    pub id: String,
    pub title: String,
    pub description: String,
    pub notes: String,
    pub category: String,
    pub priority: String,
    pub status: String,
    pub color: String,
    pub icon: String,
    pub deadline: Option<String>,
    pub created_at: String,
    pub updated_at: String,
}

/// A task row as the snapshot document carries it. The snapshot format does
/// not carry `parent_task_id` or `updated_at`; importing normalizes them.
#[derive(Debug, PartialEq, Eq)]
pub struct TaskData {
    pub id: String,
    pub title: String,
    pub done: bool,
    pub goal_id: Option<String>,
    pub due_date: Option<String>,
    pub priority: String,
    pub created_at: String,
}

/// The character-sequence view of an optional string.
pub open spec fn opt_str_view(o: &Option<String>) -> Option<Seq<char>> {
    match o {
        Some(s) => Some(s@),
        None => None,
    }
}

/// Clones an optional string, preserving its value.
pub fn clone_opt_string(o: &Option<String>) -> (r: Option<String>)
    ensures
        r == *o,
{
    match o {
        Some(s) => Some(s.clone()),
        None => None,
    }
}

impl Clone for Goal {
    fn clone(&self) -> (res: Self)
        ensures
            res == *self,
    {
        Goal {
            id: self.id.clone(),
            title: self.title.clone(),
            description: self.description.clone(),
            notes: self.notes.clone(),
            category: self.category.clone(),
            priority: self.priority.clone(),
            status: self.status.clone(),
            color: self.color.clone(),
            icon: self.icon.clone(),
            deadline: clone_opt_string(&self.deadline),
            created_at: self.created_at.clone(),
            updated_at: self.updated_at.clone(),
        }
    }
}

impl Clone for Task {
    fn clone(&self) -> (res: Self)
        ensures
            res == *self,
    {
        Task {
            id: self.id.clone(),
            title: self.title.clone(),
            done: self.done,
            goal_id: clone_opt_string(&self.goal_id),
            parent_task_id: clone_opt_string(&self.parent_task_id),
            due_date: clone_opt_string(&self.due_date),
            priority: self.priority.clone(),
            created_at: self.created_at.clone(),
            updated_at: self.updated_at.clone(),
        }
    }
}

impl Clone for HabitData {
    fn clone(&self) -> (res: Self)
        ensures
            res == *self,
    {
        HabitData {
            id: self.id.clone(),
            name: self.name.clone(),
            category: self.category.clone(),
            icon: self.icon.clone(),
            color: self.color.clone(),
            target_amount: self.target_amount.clone(),
            unit: self.unit.clone(),
            frequency_type: self.frequency_type.clone(),
            frequency_value: self.frequency_value.clone(),
            priority: self.priority.clone(),
            notes: self.notes.clone(),
            linked_goals: self.linked_goals.clone(),
            start_date: self.start_date.clone(),
            reminder_enabled: self.reminder_enabled,
            reminder_time: self.reminder_time.clone(),
            created_at: self.created_at.clone(),
            updated_at: self.updated_at.clone(),
        }
    }
}

impl Clone for HabitCompletionData {
    fn clone(&self) -> (res: Self)
        ensures
            res == *self,
    {
        HabitCompletionData {
            id: self.id.clone(),
            habit_id: self.habit_id.clone(),
            date: self.date.clone(),
            completed: self.completed,
            actual_amount: self.actual_amount.clone(),
            target_amount: self.target_amount.clone(),
            completed_at: clone_opt_string(&self.completed_at),
            note: self.note.clone(),
            mood: clone_opt_string(&self.mood),
            difficulty: clone_opt_string(&self.difficulty),
            skipped: self.skipped,
            created_at: self.created_at.clone(),
            updated_at: self.updated_at.clone(),
        }
    }
}

impl Clone for GoalData {
    fn clone(&self) -> (res: Self)
        ensures
            res == *self,
    {
        GoalData {
            id: self.id.clone(),
            title: self.title.clone(),
            description: self.description.clone(),
            notes: self.notes.clone(),
            category: self.category.clone(),
            priority: self.priority.clone(),
            status: self.status.clone(),
            color: self.color.clone(),
            icon: self.icon.clone(),
            deadline: clone_opt_string(&self.deadline),
            created_at: self.created_at.clone(),
            updated_at: self.updated_at.clone(),
        }
    }
}

impl Clone for TaskData {
    fn clone(&self) -> (res: Self)
        ensures
            res == *self,
    {
        TaskData {
            id: self.id.clone(),
            title: self.title.clone(),
            done: self.done,
            goal_id: clone_opt_string(&self.goal_id),
            due_date: clone_opt_string(&self.due_date),
            priority: self.priority.clone(),
            created_at: self.created_at.clone(),
        }
    }
}

/// The snapshot row a goal exports to: the same fields, reshaped.
pub open spec fn spec_goal_to_data(g: Goal) -> GoalData {
    GoalData {
        id: g.id,
        title: g.title,
        description: g.description,
        notes: g.notes,
        category: g.category,
        priority: g.priority,
        status: g.status,
        color: g.color,
        icon: g.icon,
        deadline: g.deadline,
        created_at: g.created_at,
        updated_at: g.updated_at,
    }
}

/// The goal a snapshot row imports to.
pub open spec fn spec_data_to_goal(g: GoalData) -> Goal {
    Goal {
        id: g.id,
        title: g.title,
        description: g.description,
        notes: g.notes,
        category: g.category,
        priority: g.priority,
        status: g.status,
        color: g.color,
        icon: g.icon,
        deadline: g.deadline,
        created_at: g.created_at,
        updated_at: g.updated_at,
    }
}

/// The snapshot row a task exports to: `parent_task_id` and `updated_at` are
/// not carried by the format.
pub open spec fn spec_task_to_data(t: Task) -> TaskData {
    TaskData {
        id: t.id,
        title: t.title,
        done: t.done,
        goal_id: t.goal_id,
        due_date: t.due_date,
        priority: t.priority,
        created_at: t.created_at,
    }
}

/// The task a snapshot row imports to: no parent reference, and `updated_at`
/// is normalized to the creation time.
pub open spec fn spec_data_to_task(t: TaskData) -> Task {
    Task {
        id: t.id,
        title: t.title,
        done: t.done,
        goal_id: t.goal_id,
        parent_task_id: None,
        due_date: t.due_date,
        priority: t.priority,
        created_at: t.created_at,
        updated_at: t.created_at,
    }
}

impl Goal {
    /// Copies this row into its snapshot form.
    pub fn to_data(&self) -> (r: GoalData)
        ensures
            r == spec_goal_to_data(*self),
    {
        let c = self.clone();
        GoalData {
            id: c.id,
            title: c.title,
            description: c.description,
            notes: c.notes,
            category: c.category,
            priority: c.priority,
            status: c.status,
            color: c.color,
            icon: c.icon,
            deadline: c.deadline,
            created_at: c.created_at,
            updated_at: c.updated_at,
        }
    }
}

impl GoalData {
    /// Moves this snapshot row into a goal row.
    pub fn into_goal(self) -> (r: Goal)
        ensures
            r == spec_data_to_goal(self),
    {
        Goal {
            id: self.id,
            title: self.title,
            description: self.description,
            notes: self.notes,
            category: self.category,
            priority: self.priority,
            status: self.status,
            color: self.color,
            icon: self.icon,
            deadline: self.deadline,
            created_at: self.created_at,
            updated_at: self.updated_at,
        }
    }
}

impl Task {
    /// Copies this row into its snapshot form, dropping the fields the format
    /// does not carry.
    pub fn to_data(&self) -> (r: TaskData)
        ensures
            r == spec_task_to_data(*self),
    {
        TaskData {
            id: self.id.clone(),
            title: self.title.clone(),
            done: self.done,
            goal_id: clone_opt_string(&self.goal_id),
            due_date: clone_opt_string(&self.due_date),
            priority: self.priority.clone(),
            created_at: self.created_at.clone(),
        }
    }
}

impl TaskData {
    /// Moves this snapshot row into a task row, normalizing the fields the
    /// format does not carry.
    pub fn into_task(self) -> (r: Task)
        ensures
            r == spec_data_to_task(self),
    {
        let updated_at = self.created_at.clone();
        Task {
            id: self.id,
            title: self.title,
            done: self.done,
            goal_id: self.goal_id,
            parent_task_id: None,
            due_date: self.due_date,
            priority: self.priority,
            created_at: self.created_at,
            updated_at,
        }
    }
}

} // verus!

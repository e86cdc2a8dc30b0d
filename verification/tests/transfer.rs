use loomra_core::records::{Goal, HabitCompletionData, HabitData, Task};
use loomra_core::settings::{
    AppSettings, AppearanceSettings, DataSettings, GoalSettings, HabitSettings,
    NotificationSettings,
};
use loomra_core::store::Store;
use loomra_core::transfer::{ExportError, ImportError};

fn goal(id: &str) -> Goal {
    Goal {
        id: id.to_string(),
        title: format!("goal {id}"),
        description: "desc".to_string(),
        notes: "notes".to_string(),
        category: "general".to_string(),
        priority: "high".to_string(),
        status: "active".to_string(),
        color: "#fff".to_string(),
        icon: "star".to_string(),
        deadline: Some("2024-12-31".to_string()),
        created_at: "2024-01-01T00:00:00Z".to_string(),
        updated_at: "2024-01-02T00:00:00Z".to_string(),
    }
}

fn task(id: &str, goal_id: Option<&str>, parent: Option<&str>) -> Task {
    Task {
        id: id.to_string(),
        title: format!("task {id}"),
        done: true,
        goal_id: goal_id.map(|s| s.to_string()),
        parent_task_id: parent.map(|s| s.to_string()),
        due_date: Some("2024-06-01".to_string()),
        priority: "low".to_string(),
        created_at: "2024-01-03T00:00:00Z".to_string(),
        updated_at: "2024-01-04T00:00:00Z".to_string(),
    }
}

fn habit(id: &str, linked_goals: &str) -> HabitData {
    HabitData {
        id: id.to_string(),
        name: format!("habit {id}"),
        category: "health".to_string(),
        icon: "run".to_string(),
        color: "#0f0".to_string(),
        target_amount: "2.5".to_string(),
        unit: "km".to_string(),
        frequency_type: "daily".to_string(),
        frequency_value: "null".to_string(),
        priority: "medium".to_string(),
        notes: String::new(),
        linked_goals: linked_goals.to_string(),
        start_date: "2024-01-01".to_string(),
        reminder_enabled: true,
        reminder_time: "09:00".to_string(),
        created_at: "2024-01-01T00:00:00Z".to_string(),
        updated_at: "2024-01-01T00:00:00Z".to_string(),
    }
}

fn completion(id: &str, habit_id: &str, date: &str) -> HabitCompletionData {
    HabitCompletionData {
        id: id.to_string(),
        habit_id: habit_id.to_string(),
        date: date.to_string(),
        completed: true,
        actual_amount: "2.5".to_string(),
        target_amount: "2.5".to_string(),
        completed_at: Some("2024-01-01T20:00:00Z".to_string()),
        note: "ok".to_string(),
        mood: Some("good".to_string()),
        difficulty: None,
        skipped: false,
        created_at: "2024-01-01T00:00:00Z".to_string(),
        updated_at: "2024-01-01T00:00:00Z".to_string(),
    }
}

fn settings() -> AppSettings {
    AppSettings {
        appearance: AppearanceSettings {
            theme: "dark".to_string(),
            week_starts_on: "monday".to_string(),
            timezone: "UTC".to_string(),
        },
        habits: HabitSettings {
            default_reminder: true,
            default_reminder_time: "08:00".to_string(),
            default_priority: "medium".to_string(),
        },
        goals: GoalSettings {
            deadline_warning_days: 7,
            default_category: "general".to_string(),
            show_progress_percentage: true,
        },
        notifications: NotificationSettings {
            habit_reminders: true,
            goal_deadlines: false,
            streak_milestones: true,
            daily_summary: false,
            weekly_summary: true,
            motivational_quotes: false,
        },
        data: DataSettings {
            auto_backup: false,
            backup_frequency: "weekly".to_string(),
        },
    }
}

fn populated_store() -> Store {
    Store {
        goals: vec![goal("g1"), goal("g2")],
        tasks: vec![task("t1", Some("g1"), None), task("t2", None, Some("t1"))],
        habits: vec![habit("h1", "[\"g1\"]"), habit("h2", "[]")],
        completions: vec![
            completion("c1", "h1", "2024-01-01"),
            completion("c2", "h1", "2024-01-02"),
            completion("c3", "h2", "2024-01-01"),
        ],
        settings: Some(settings()),
    }
}

#[test]
fn export_fails_without_settings() {
    let mut s = populated_store();
    s.settings = None;
    let r = s.export_all("2024-06-01T00:00:00Z".to_string());
    assert_eq!(r, Err(ExportError::SettingsNotInitialized));
    assert_eq!(
        ExportError::SettingsNotInitialized.message(),
        "Settings not initialized"
    );
}

#[test]
fn export_carries_every_table_and_metadata() {
    let s = populated_store();
    let doc = s.export_all("2024-06-01T00:00:00Z".to_string()).unwrap();
    assert_eq!(doc.settings, settings());
    assert_eq!(doc.goals.len(), 2);
    assert_eq!(doc.goals[0].id, "g1");
    assert_eq!(doc.goals[0].deadline, Some("2024-12-31".to_string()));
    assert_eq!(doc.tasks.len(), 2);
    assert_eq!(doc.tasks[0].goal_id, Some("g1".to_string()));
    assert_eq!(doc.habits, s.habits);
    assert_eq!(doc.habit_completions, s.completions);
    assert_eq!(doc.export_metadata.export_date, "2024-06-01T00:00:00Z");
    assert_eq!(doc.export_metadata.version, "1.0.0");
    assert_eq!(doc.export_metadata.total_records, 2 + 2 + 2 + 3);
}

#[test]
fn import_of_export_restores_the_data_set() {
    let original = populated_store();
    let doc = original.export_all("2024-06-01T00:00:00Z".to_string()).unwrap();

    let mut target = Store::new();
    // Pre-existing rows not present in the document must be removed.
    target.goals.push(goal("stale"));
    let summary = target.import_all(doc).unwrap();

    assert_eq!(summary.goals, 2);
    assert_eq!(summary.tasks, 2);
    assert_eq!(summary.habits, 2);
    assert_eq!(summary.habit_completions, 3);

    assert_eq!(target.goals, original.goals);
    assert_eq!(target.habits, original.habits);
    assert_eq!(target.completions, original.completions);
    assert_eq!(target.settings, original.settings);

    // The snapshot format does not carry task parents or update times:
    // imported tasks come back with the parent cleared and updated_at
    // normalized to created_at; everything else is identical.
    assert_eq!(target.tasks.len(), original.tasks.len());
    for (imported, before) in target.tasks.iter().zip(original.tasks.iter()) {
        assert_eq!(imported.id, before.id);
        assert_eq!(imported.title, before.title);
        assert_eq!(imported.done, before.done);
        assert_eq!(imported.goal_id, before.goal_id);
        assert_eq!(imported.due_date, before.due_date);
        assert_eq!(imported.priority, before.priority);
        assert_eq!(imported.created_at, before.created_at);
        assert_eq!(imported.parent_task_id, None);
        assert_eq!(imported.updated_at, before.created_at);
    }
    assert!(target.check_wf());
}

#[test]
fn import_with_duplicate_completion_key_changes_nothing() {
    let source = populated_store();
    let mut doc = source.export_all("2024-06-01T00:00:00Z".to_string()).unwrap();
    // Two completions for the same habit and date violate uniqueness.
    doc.habit_completions.push(completion("c9", "h1", "2024-01-01"));

    let mut target = populated_store();
    let before = populated_store();
    let r = target.import_all(doc);
    assert_eq!(r, Err(ImportError::DuplicateCompletionKey));
    assert_eq!(target, before);
}

#[test]
fn import_rejects_duplicate_ids() {
    let source = populated_store();
    let mut target = Store::new();

    let mut doc = source.export_all("d".to_string()).unwrap();
    doc.goals.push(doc.goals[0].clone());
    assert_eq!(target.import_all(doc), Err(ImportError::DuplicateGoalId));

    let mut doc = source.export_all("d".to_string()).unwrap();
    doc.tasks.push(doc.tasks[1].clone());
    assert_eq!(target.import_all(doc), Err(ImportError::DuplicateTaskId));

    let mut doc = source.export_all("d".to_string()).unwrap();
    doc.habits.push(doc.habits[0].clone());
    assert_eq!(target.import_all(doc), Err(ImportError::DuplicateHabitId));

    let mut doc = source.export_all("d".to_string()).unwrap();
    let mut dup = doc.habit_completions[0].clone();
    dup.date = "2024-03-03".to_string();
    doc.habit_completions.push(dup);
    assert_eq!(
        target.import_all(doc),
        Err(ImportError::DuplicateCompletionId)
    );

    // Nothing was installed by any rejected document.
    assert_eq!(target, Store::new());
}

#[test]
fn import_rejects_dangling_references() {
    let source = populated_store();
    let mut target = Store::new();

    let mut doc = source.export_all("d".to_string()).unwrap();
    doc.tasks[0].goal_id = Some("missing".to_string());
    assert_eq!(target.import_all(doc), Err(ImportError::UnknownTaskGoal));

    let mut doc = source.export_all("d".to_string()).unwrap();
    doc.habits[0].linked_goals = "[\"missing\"]".to_string();
    assert_eq!(target.import_all(doc), Err(ImportError::UnknownLinkedGoal));

    let mut doc = source.export_all("d".to_string()).unwrap();
    doc.habit_completions[0].habit_id = "missing".to_string();
    assert_eq!(
        target.import_all(doc),
        Err(ImportError::UnknownCompletionHabit)
    );

    assert_eq!(target, Store::new());
}

#[test]
fn import_accepts_undecodable_linked_goals_text() {
    // The stored field is opaque text; a field that does not decode links to
    // nothing and passes validation, exactly as the coordinator skips it.
    let source = populated_store();
    let mut doc = source.export_all("d".to_string()).unwrap();
    doc.habits[1].linked_goals = "not json".to_string();
    let mut target = Store::new();
    assert!(target.import_all(doc).is_ok());
    assert_eq!(target.habits[1].linked_goals, "not json");
}

#[test]
fn export_and_import_of_empty_tables() {
    let mut s = Store::new();
    s.settings = Some(settings());
    let doc = s.export_all("2024-06-01T00:00:00Z".to_string()).unwrap();
    assert_eq!(doc.export_metadata.total_records, 0);

    let mut target = populated_store();
    let summary = target.import_all(doc).unwrap();
    assert_eq!(summary.goals, 0);
    assert!(target.goals.is_empty());
    assert!(target.tasks.is_empty());
    assert!(target.habits.is_empty());
    assert!(target.completions.is_empty());
    assert_eq!(target.settings, Some(settings()));
}

#[test]
fn import_error_messages_name_the_step() {
    assert_eq!(ImportError::DuplicateGoalId.message(), "duplicate goal id");
    assert_eq!(
        ImportError::DuplicateCompletionKey.message(),
        "duplicate completion for one habit and date"
    );
    assert_eq!(
        ImportError::UnknownCompletionHabit.message(),
        "completion references an unknown habit"
    );
}

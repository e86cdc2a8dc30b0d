use loomra_core::coordinator::{parse_strategy, DeleteStrategy};
use loomra_core::records::{Goal, HabitCompletionData, HabitData, Task};
use loomra_core::store::Store;

fn goal(id: &str) -> Goal {
    Goal {
        id: id.to_string(),
        title: format!("goal {id}"),
        description: String::new(),
        notes: String::new(),
        category: "general".to_string(),
        priority: "medium".to_string(),
        status: "active".to_string(),
        color: "#fff".to_string(),
        icon: "star".to_string(),
        deadline: None,
        created_at: "2024-01-01T00:00:00Z".to_string(),
        updated_at: "2024-01-01T00:00:00Z".to_string(),
    }
}

fn task(id: &str, goal_id: Option<&str>, parent: Option<&str>) -> Task {
    Task {
        id: id.to_string(),
        title: format!("task {id}"),
        done: false,
        goal_id: goal_id.map(|s| s.to_string()),
        parent_task_id: parent.map(|s| s.to_string()),
        due_date: None,
        priority: "medium".to_string(),
        created_at: "2024-01-01T00:00:00Z".to_string(),
        updated_at: "2024-01-02T00:00:00Z".to_string(),
    }
}

fn habit(id: &str, linked_goals: &str) -> HabitData {
    HabitData {
        id: id.to_string(),
        name: format!("habit {id}"),
        category: "health".to_string(),
        icon: "run".to_string(),
        color: "#0f0".to_string(),
        target_amount: "1".to_string(),
        unit: "times".to_string(),
        frequency_type: "daily".to_string(),
        frequency_value: "null".to_string(),
        priority: "medium".to_string(),
        notes: String::new(),
        linked_goals: linked_goals.to_string(),
        start_date: "2024-01-01".to_string(),
        reminder_enabled: false,
        reminder_time: "09:00".to_string(),
        created_at: "2024-01-01T00:00:00Z".to_string(),
        updated_at: "2024-01-01T00:00:00Z".to_string(),
    }
}

fn completion(id: &str, habit_id: &str, date: &str, completed: bool) -> HabitCompletionData {
    HabitCompletionData {
        id: id.to_string(),
        habit_id: habit_id.to_string(),
        date: date.to_string(),
        completed,
        actual_amount: "1".to_string(),
        target_amount: "1".to_string(),
        completed_at: None,
        note: String::new(),
        mood: None,
        difficulty: None,
        skipped: false,
        created_at: "2024-01-01T00:00:00Z".to_string(),
        updated_at: "2024-01-01T00:00:00Z".to_string(),
    }
}

fn sample_store() -> Store {
    Store {
        goals: vec![goal("g1"), goal("g2")],
        tasks: vec![
            task("t1", Some("g1"), None),
            task("t2", Some("g2"), None),
            task("t3", None, Some("t1")),
            task("t4", None, None),
        ],
        habits: vec![
            habit("h1", "[\"g1\",\"g2\"]"),
            habit("h2", "[]"),
            habit("h3", "not json"),
        ],
        completions: vec![
            completion("c1", "h1", "2024-01-01", true),
            completion("c2", "h2", "2024-01-01", true),
        ],
        settings: None,
    }
}

fn ids_of_tasks(s: &Store) -> Vec<String> {
    s.tasks.iter().map(|t| t.id.clone()).collect()
}

#[test]
fn parse_strategy_reads_cascade() {
    assert_eq!(
        parse_strategy(&Some("cascade".to_string())),
        DeleteStrategy::Cascade
    );
}

#[test]
fn parse_strategy_defaults_to_nullify() {
    assert_eq!(parse_strategy(&None), DeleteStrategy::Nullify);
    assert_eq!(
        parse_strategy(&Some("CASCADE".to_string())),
        DeleteStrategy::Nullify
    );
    assert_eq!(
        parse_strategy(&Some("anything".to_string())),
        DeleteStrategy::Nullify
    );
}

#[test]
fn cascade_deletes_dependent_tasks_and_subtasks() {
    let mut s = sample_store();
    assert!(s.check_wf());
    let existed = s.delete_goal(&"g1".to_string(), DeleteStrategy::Cascade);
    assert!(existed);
    // t1 referenced g1; t3 was a subtask of t1 and goes with it.
    assert_eq!(ids_of_tasks(&s), vec!["t2".to_string(), "t4".to_string()]);
    // The goal row itself is gone.
    assert_eq!(s.goals.len(), 1);
    assert_eq!(s.goals[0].id, "g2");
    // Completions are untouched by a goal deletion.
    assert_eq!(s.completions.len(), 2);
    assert!(s.check_wf());
}

#[test]
fn cascade_scrubs_linked_goals() {
    let mut s = sample_store();
    s.delete_goal(&"g1".to_string(), DeleteStrategy::Cascade);
    // h1's embedded list was rewritten through the serializer.
    assert_eq!(s.habits[0].linked_goals, "[\"g2\"]");
    // h2 and h3 were not touched at all.
    assert_eq!(s.habits[1].linked_goals, "[]");
    assert_eq!(s.habits[2].linked_goals, "not json");
}

#[test]
fn scrub_to_empty_list() {
    let mut s = sample_store();
    s.habits[0].linked_goals = "[\"g1\"]".to_string();
    s.delete_goal(&"g1".to_string(), DeleteStrategy::Nullify);
    assert_eq!(s.habits[0].linked_goals, "[]");
}

#[test]
fn nullify_keeps_tasks_and_clears_references() {
    let mut s = sample_store();
    let existed = s.delete_goal(&"g1".to_string(), DeleteStrategy::Nullify);
    assert!(existed);
    // Every task row survives.
    assert_eq!(
        ids_of_tasks(&s),
        vec![
            "t1".to_string(),
            "t2".to_string(),
            "t3".to_string(),
            "t4".to_string()
        ]
    );
    assert_eq!(s.tasks[0].goal_id, None);
    assert_eq!(s.tasks[1].goal_id, Some("g2".to_string()));
    assert_eq!(s.tasks[2].parent_task_id, Some("t1".to_string()));
    assert!(s.check_wf());
}

#[test]
fn deleting_absent_goal_returns_false_and_changes_nothing() {
    let mut s = sample_store();
    let before = sample_store();
    let existed = s.delete_goal(&"missing".to_string(), DeleteStrategy::Cascade);
    assert!(!existed);
    assert_eq!(s, before);
    let existed = s.delete_goal(&"missing".to_string(), DeleteStrategy::Nullify);
    assert!(!existed);
    assert_eq!(s, before);
}

#[test]
fn delete_habit_removes_its_completions() {
    let mut s = sample_store();
    let existed = s.delete_habit(&"h1".to_string());
    assert!(existed);
    assert_eq!(s.habits.len(), 2);
    assert!(s.habits.iter().all(|h| h.id != "h1"));
    // Zero completion rows reference the deleted habit.
    assert!(s.completions.iter().all(|c| c.habit_id != "h1"));
    assert_eq!(s.completions.len(), 1);
    assert_eq!(s.completions[0].id, "c2");
    assert!(s.check_wf());
}

#[test]
fn deleting_absent_habit_returns_false_and_changes_nothing() {
    let mut s = sample_store();
    let before = sample_store();
    let existed = s.delete_habit(&"missing".to_string());
    assert!(!existed);
    assert_eq!(s, before);
}

#[test]
fn check_wf_accepts_consistent_store() {
    assert!(sample_store().check_wf());
    assert!(Store::new().check_wf());
}

#[test]
fn check_wf_rejects_dangling_task_reference() {
    let mut s = sample_store();
    s.tasks.push(task("t9", Some("missing"), None));
    assert!(!s.check_wf());
}

#[test]
fn check_wf_rejects_duplicate_ids() {
    let mut s = sample_store();
    s.goals.push(goal("g1"));
    assert!(!s.check_wf());
}

#[test]
fn check_wf_rejects_duplicate_completion_key() {
    let mut s = sample_store();
    s.completions
        .push(completion("c9", "h1", "2024-01-01", false));
    assert!(!s.check_wf());
}

#[test]
fn check_wf_rejects_dangling_linked_goal() {
    let mut s = sample_store();
    s.habits.push(habit("h9", "[\"missing\"]"));
    assert!(!s.check_wf());
}

#[test]
fn get_environment_names_the_build() {
    assert_eq!(loomra_core::get_environment(true), "dev");
    assert_eq!(loomra_core::get_environment(false), "prod");
}

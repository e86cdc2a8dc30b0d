//! The settings singleton: one structured configuration record, optional
//! until its first save.

use vstd::prelude::*;

verus! {

#[derive(Debug, PartialEq, Eq)]
pub struct AppearanceSettings {
    pub theme: String,
    pub week_starts_on: String,
    pub timezone: String,
}

#[derive(Debug, PartialEq, Eq)]
pub struct HabitSettings {
    pub default_reminder: bool,
    pub default_reminder_time: String,
    pub default_priority: String,
}

#[derive(Debug, PartialEq, Eq)]
pub struct GoalSettings {
    pub deadline_warning_days: u32,
    pub default_category: String,
    pub show_progress_percentage: bool,
}

#[derive(Debug, PartialEq, Eq)]
pub struct NotificationSettings {
    pub habit_reminders: bool,
    pub goal_deadlines: bool,
    pub streak_milestones: bool,
    pub daily_summary: bool,
    pub weekly_summary: bool,
    pub motivational_quotes: bool,
}

#[derive(Debug, PartialEq, Eq)]
pub struct DataSettings {
    pub auto_backup: bool,
    pub backup_frequency: String,
}

/// The whole configuration record.
#[derive(Debug, PartialEq, Eq)]
pub struct AppSettings {
    pub appearance: AppearanceSettings,
    pub habits: HabitSettings,
    pub goals: GoalSettings,
    pub notifications: NotificationSettings,
    pub data: DataSettings,
}

impl Clone for AppearanceSettings {
    fn clone(&self) -> (res: Self)
        ensures
            res == *self,
    {
        AppearanceSettings {
            theme: self.theme.clone(),
            week_starts_on: self.week_starts_on.clone(),
            timezone: self.timezone.clone(),
        }
    }
}

impl Clone for HabitSettings {
    fn clone(&self) -> (res: Self)
        ensures
            res == *self,
    {
        HabitSettings {
            default_reminder: self.default_reminder,
            default_reminder_time: self.default_reminder_time.clone(),
            default_priority: self.default_priority.clone(),
        }
    }
}

impl Clone for GoalSettings {
    fn clone(&self) -> (res: Self)
        ensures
            res == *self,
    {
        GoalSettings {
            deadline_warning_days: self.deadline_warning_days,
            default_category: self.default_category.clone(),
            show_progress_percentage: self.show_progress_percentage,
        }
    }
}

impl Clone for NotificationSettings {
    fn clone(&self) -> (res: Self)
        ensures
            res == *self,
    {
        NotificationSettings {
            habit_reminders: self.habit_reminders,
            goal_deadlines: self.goal_deadlines,
            streak_milestones: self.streak_milestones,
            daily_summary: self.daily_summary,
            weekly_summary: self.weekly_summary,
            motivational_quotes: self.motivational_quotes,
        }
    }
}

impl Clone for DataSettings {
    fn clone(&self) -> (res: Self)
        ensures
            res == *self,
    {
        DataSettings {
            auto_backup: self.auto_backup,
            backup_frequency: self.backup_frequency.clone(),
        }
    }
}

impl Clone for AppSettings {
    fn clone(&self) -> (res: Self)
        ensures
            res == *self,
    {
        AppSettings {
            appearance: self.appearance.clone(),
            habits: self.habits.clone(),
            goals: self.goals.clone(),
            notifications: self.notifications.clone(),
            data: self.data.clone(),
        }
    }
}

} // verus!

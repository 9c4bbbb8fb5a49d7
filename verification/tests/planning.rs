use zhaomu::backup::{
    auto_backup_due, auto_backup_enabled, backup_mode, backup_record, backup_preferences_update, backup_retain_count, backups_to_remove,
    clamp_retain, preferred_retain,
};
use zhaomu::errors::PlannerError;
use zhaomu::yuque::Json;
use zhaomu::numbers::decimal_text;
use zhaomu::knowledge::{check_category_parent, check_upload_size, upload_category, MAX_UPLOAD_BYTES};
use zhaomu::tasks::{
    check_priority, check_study_minutes, check_task_status, new_task, plan_record, project_record,
    require_changed, required_text, restore_table, task_sort_orders, CreateTask,
};

fn s(x: &str) -> String {
    x.to_string()
}

fn task_input(title: &str) -> CreateTask {
    CreateTask {
        title: s(title),
        description: None,
        planned_date: None,
        priority: None,
        estimated_minutes: None,
        plan_id: None,
        stage_id: None,
        due_at: None,
        is_important: None,
        project_id: None,
        schedule_start: None,
        schedule_end: None,
        recurrence: None,
        remind_on_open: None,
    }
}

#[test]
fn new_task_fills_defaults() {
    let t = new_task(task_input("  读书  ")).unwrap();
    assert_eq!(t.title, "读书");
    assert_eq!(t.description, "");
    assert_eq!(t.priority, "medium");
    assert_eq!(t.recurrence, "none");
    assert!(!t.is_important);
    assert!(t.remind_on_open);
    assert_eq!(t.planned_date, None);
}

#[test]
fn new_task_keeps_given_fields() {
    let mut input = task_input("Write");
    input.priority = Some(s("urgent"));
    input.description = Some(s("draft"));
    input.planned_date = Some(s("2024-05-06"));
    input.estimated_minutes = Some(45);
    input.is_important = Some(true);
    input.recurrence = Some(s("weekly"));
    input.remind_on_open = Some(false);
    input.project_id = Some(s("p1"));
    let t = new_task(input).unwrap();
    assert_eq!(t.priority, "urgent");
    assert_eq!(t.description, "draft");
    assert_eq!(t.planned_date.as_deref(), Some("2024-05-06"));
    assert_eq!(t.estimated_minutes, Some(45));
    assert!(t.is_important);
    assert_eq!(t.recurrence, "weekly");
    assert!(!t.remind_on_open);
    assert_eq!(t.project_id.as_deref(), Some("p1"));
}

#[test]
fn new_task_refuses_blank_title_before_priority() {
    let mut input = task_input(" \t ");
    input.priority = Some(s("whenever"));
    assert_eq!(new_task(input).err(), Some(PlannerError::TaskTitleEmpty));
}

#[test]
fn new_task_refuses_unknown_priority() {
    let mut input = task_input("Plan");
    input.priority = Some(s("High"));
    assert_eq!(new_task(input).err(), Some(PlannerError::InvalidPriority));
    assert!(check_priority("low") && check_priority("high") && !check_priority(""));
}

#[test]
fn task_status_values() {
    assert_eq!(check_task_status("todo"), Ok(()));
    assert_eq!(check_task_status("doing"), Ok(()));
    assert_eq!(check_task_status("done"), Ok(()));
    assert_eq!(check_task_status("Done"), Err(PlannerError::InvalidStatus));
}

#[test]
fn required_text_trims_or_refuses() {
    assert_eq!(required_text("  名字 ", PlannerError::ProjectTitleEmpty), Ok(s("名字")));
    assert_eq!(required_text("   ", PlannerError::CategoryTitleEmpty), Err(PlannerError::CategoryTitleEmpty));
    assert_eq!(required_text("", PlannerError::DailyItemEmpty), Err(PlannerError::DailyItemEmpty));
}

#[test]
fn unchanged_update_means_missing() {
    assert_eq!(require_changed(0, PlannerError::TaskNotFound), Err(PlannerError::TaskNotFound));
    assert_eq!(require_changed(1, PlannerError::ProjectNotFound), Ok(()));
}

#[test]
fn study_minutes_must_be_positive() {
    assert_eq!(check_study_minutes(1), Ok(()));
    assert_eq!(check_study_minutes(0), Err(PlannerError::StudyMinutesNotPositive));
    assert_eq!(check_study_minutes(-5), Err(PlannerError::StudyMinutesNotPositive));
}

#[test]
fn sort_orders_follow_positions() {
    let orders = task_sort_orders(vec![s("c"), s("a"), s("b")]);
    assert_eq!(orders, vec![(s("c"), 0), (s("a"), 1), (s("b"), 2)]);
    assert!(task_sort_orders(Vec::new()).is_empty());
}

#[test]
fn restore_tables() {
    assert_eq!(restore_table("task"), Ok(s("tasks")));
    assert_eq!(restore_table("plan"), Ok(s("plans")));
    assert_eq!(restore_table("note"), Ok(s("documents")));
    assert_eq!(restore_table("project"), Err(PlannerError::ItemTypeInvalid));
}

#[test]
fn project_and_plan_defaults() {
    let p = project_record("  Q3 ", None);
    assert_eq!((p.title.as_str(), p.description.as_str(), p.kind.as_str()), ("Q3", "", "active"));
    let plan = plan_record(" 考研 ", Some(s("数学")), None);
    assert_eq!((plan.title.as_str(), plan.description.as_str(), plan.kind.as_str()), ("考研", "数学", "study"));
    let plan = plan_record("x", None, Some(s("work")));
    assert_eq!(plan.kind, "work");
}

#[test]
fn category_parent_rules() {
    assert_eq!(check_category_parent(None), Err(PlannerError::ParentCategoryMissing));
    assert_eq!(check_category_parent(Some(Some(s("root")))), Err(PlannerError::CategoryTooDeep));
    assert_eq!(check_category_parent(Some(None)), Ok(()));
}

#[test]
fn upload_limits_and_category() {
    assert_eq!(check_upload_size(MAX_UPLOAD_BYTES), Ok(()));
    assert_eq!(check_upload_size(100 * 1024 * 1024 + 1), Err(PlannerError::FileTooLarge));
    assert_eq!(upload_category(None), Err(PlannerError::UploadCategoryMissing));
    assert_eq!(upload_category(Some((s("小"), None))), Err(PlannerError::UploadNeedsSubcategory));
    assert_eq!(upload_category(Some((s("小"), Some(s("p"))))), Ok((s("小"), s("p"))));
}

#[test]
fn retention_count_from_setting() {
    assert_eq!(backup_retain_count(None), 7);
    assert_eq!(backup_retain_count(Some(s("12"))), 12);
    assert_eq!(backup_retain_count(Some(s("100"))), 50);
    assert_eq!(backup_retain_count(Some(s("0"))), 1);
    assert_eq!(backup_retain_count(Some(s("seven"))), 7);
    assert_eq!(preferred_retain(Some(s("100"))), 100);
    assert_eq!(preferred_retain(Some(s("x"))), 7);
    assert_eq!(clamp_retain(0), 1);
    assert_eq!(clamp_retain(51), 50);
}

#[test]
fn preferences_update_checks_mode() {
    assert_eq!(backup_preferences_update("weekly", 0), Ok(1));
    assert_eq!(backup_preferences_update("off", 80), Ok(50));
    assert_eq!(backup_preferences_update("daily", 9), Ok(9));
    assert_eq!(backup_preferences_update("hourly", 9), Err(PlannerError::InvalidBackupMode));
    assert_eq!(backup_mode(None), "daily");
    assert_eq!(backup_mode(Some(s("weekly"))), "weekly");
}

#[test]
fn auto_backup_schedule() {
    assert!(auto_backup_due(None, 100_000, None));
    assert!(!auto_backup_due(None, 100_000, Some(s("50000"))));
    assert!(auto_backup_due(None, 136_400, Some(s("50000"))));
    assert!(!auto_backup_due(Some(s("weekly")), 136_400, Some(s("50000"))));
    assert!(auto_backup_due(Some(s("weekly")), 654_800, Some(s("50000"))));
    assert!(!auto_backup_due(Some(s("off")), u64::MAX, None));
    assert!(!auto_backup_due(None, 10, Some(s("99999999"))));
    assert!(auto_backup_due(Some(s("monthly")), 86_400, Some(s("garbage"))));
}

#[test]
fn auto_backup_stays_due_later() {
    let last = Some(s("1000"));
    let mut due_seen = false;
    for now in (0u64..400_000).step_by(5_000) {
        let due = auto_backup_due(Some(s("daily")), now, last.clone());
        assert!(!due_seen || due);
        due_seen |= due;
    }
    assert!(due_seen);
}

#[test]
fn retention_removes_oldest_by_name() {
    let names = vec![s("3"), s("1"), s("2"), s("10")];
    assert_eq!(backups_to_remove(&names, 2), vec![1, 3]);
    assert_eq!(backups_to_remove(&names, 7), Vec::<usize>::new());
    assert_eq!(backups_to_remove(&names, 1), vec![1, 3, 2]);
    assert_eq!(backups_to_remove(&Vec::new(), 1), Vec::<usize>::new());
}

#[test]
fn retention_keeps_the_newest_backup() {
    let names: Vec<String> = ["1700000300", "1700000100", "1700000400", "1700000200"].iter().map(|x| s(x)).collect();
    let removed = backups_to_remove(&names, 1);
    assert_eq!(removed, vec![1, 3, 0]);
    assert!(!removed.contains(&2));
}

#[test]
fn saved_retention_reads_back() {
    for asked in [0usize, 1, 7, 50, 51, 1000] {
        let stored = decimal_text(clamp_retain(asked) as u128);
        assert_eq!(preferred_retain(Some(stored.clone())), clamp_retain(asked));
        assert_eq!(backup_retain_count(Some(stored)), clamp_retain(asked));
    }
}

#[test]
fn next_auto_backup_waits_one_interval() {
    let now = 1_700_000_000u64;
    let stored = Some(decimal_text(now as u128));
    assert!(!auto_backup_due(None, now, stored.clone()));
    assert!(!auto_backup_due(None, now + 86_399, stored.clone()));
    assert!(auto_backup_due(None, now + 86_400, stored.clone()));
    assert!(!auto_backup_due(Some(s("weekly")), now + 604_799, stored.clone()));
    assert!(auto_backup_due(Some(s("weekly")), now + 604_800, stored.clone()));
    assert!(!auto_backup_due(Some(s("off")), now + 10_000_000, stored));
}

#[test]
fn auto_backup_switch() {
    assert!(auto_backup_enabled(None));
    assert!(auto_backup_enabled(Some("weekly".to_string())));
    assert!(auto_backup_enabled(Some("bogus".to_string())));
    assert!(!auto_backup_enabled(Some("off".to_string())));
}

#[test]
fn backup_record_lists_what_was_copied() {
    let is_text = |j: &Json, x: &str| matches!(j, Json::Str(v) if v == x);
    let Json::Object(fields) = backup_record("2024-05-06-203040", 3) else { panic!("not an object") };
    assert_eq!(fields.len(), 4);
    assert_eq!(fields[0].0, "createdAt");
    assert!(is_text(&fields[0].1, "2024-05-06-203040"));
    assert_eq!(fields[1].0, "schemaVersion");
    assert!(matches!(&fields[1].1, Json::Number(n) if n == "3"));
    assert_eq!(fields[2].0, "database");
    assert!(is_text(&fields[2].1, "planner.db"));
    assert_eq!(fields[3].0, "folders");
    let Json::Array(items) = &fields[3].1 else { panic!("not an array") };
    assert_eq!(items.len(), 3);
    assert!(is_text(&items[0], "notes") && is_text(&items[1], "daily") && is_text(&items[2], "assets"));
}

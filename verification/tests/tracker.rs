use db_copier::model::{Progress, TaskState, TaskStatus};
use db_copier::task::{advance, JobAction, JobEvent, TaskStore};

fn names() -> Vec<String> {
    vec!["users".to_string(), "orders".to_string(), "items".to_string()]
}

fn fresh(total: usize) -> TaskStatus {
    TaskStatus::started("20240101100000".to_string(), "2024-01-01 10:00:00".to_string(), total)
}

#[test]
fn started_task_is_running_at_zero() {
    let t = fresh(3);
    assert_eq!(t.id, "20240101100000");
    assert_eq!(t.status, TaskState::Running);
    assert_eq!(t.start_time.as_deref(), Some("2024-01-01 10:00:00"));
    assert_eq!(t.end_time, None);
    assert_eq!(t.message, None);
    assert_eq!(t.progress, Some(Progress { current: 0, total: 3, table_name: String::new() }));
}

#[test]
fn job_where_second_table_fails_ends_failed_at_one() {
    let mut t = fresh(3);
    assert_eq!(advance(&mut t, &names(), JobEvent::Connected, "2024-01-01 10:00:01".into()), JobAction::CopyTable(0));
    assert_eq!(t.progress.as_ref().unwrap().table_name, "users");
    assert_eq!(advance(&mut t, &names(), JobEvent::TableCopied, "2024-01-01 10:00:02".into()), JobAction::CopyTable(1));
    assert_eq!(t.progress.as_ref().unwrap().current, 1);
    assert_eq!(t.progress.as_ref().unwrap().table_name, "orders");
    let action = advance(
        &mut t,
        &names(),
        JobEvent::TableFailed("Query error: relation missing".into()),
        "2024-01-01 10:00:03".into(),
    );
    assert_eq!(action, JobAction::Finished);
    assert_eq!(t.status, TaskState::Failed);
    assert_eq!(t.progress.as_ref().unwrap().current, 1);
    assert_eq!(t.end_time.as_deref(), Some("2024-01-01 10:00:03"));
    let message = t.message.clone().unwrap();
    assert_eq!(message, "copy of table orders failed: Query error: relation missing");
    assert!(message.contains("orders"));
    assert!(message.contains("relation missing"));
}

#[test]
fn job_without_failures_ends_completed_at_total() {
    let mut t = fresh(3);
    assert_eq!(advance(&mut t, &names(), JobEvent::Connected, "t1".into()), JobAction::CopyTable(0));
    assert_eq!(advance(&mut t, &names(), JobEvent::TableCopied, "t2".into()), JobAction::CopyTable(1));
    assert_eq!(advance(&mut t, &names(), JobEvent::TableCopied, "t3".into()), JobAction::CopyTable(2));
    assert_eq!(
        advance(&mut t, &names(), JobEvent::TableCopied, "2024-01-01 10:00:09".into()),
        JobAction::Finished
    );
    assert_eq!(t.status, TaskState::Completed);
    assert_eq!(t.progress.as_ref().unwrap().current, 3);
    assert_eq!(t.progress.as_ref().unwrap().total, 3);
    let end = t.end_time.clone().unwrap();
    assert!(end > t.start_time.clone().unwrap());
    assert_eq!(t.message.as_deref(), Some("复制完成"));
}

#[test]
fn job_without_tables_completes_at_once() {
    let mut t = fresh(0);
    assert_eq!(advance(&mut t, &vec![], JobEvent::Connected, "now".into()), JobAction::Finished);
    assert_eq!(t.status, TaskState::Completed);
    assert_eq!(t.progress.as_ref().unwrap().current, 0);
}

#[test]
fn failed_connection_ends_the_task_before_any_table() {
    let mut t = fresh(3);
    let action = advance(&mut t, &names(), JobEvent::ConnectFailed("SSH error: refused".into()), "now".into());
    assert_eq!(action, JobAction::Finished);
    assert_eq!(t.status, TaskState::Failed);
    assert_eq!(t.progress.as_ref().unwrap().current, 0);
    assert_eq!(t.message.as_deref(), Some("初始化失败: SSH error: refused"));
    assert_eq!(t.end_time.as_deref(), Some("now"));
}

#[test]
fn ended_task_is_left_alone() {
    let mut t = fresh(3);
    advance(&mut t, &names(), JobEvent::Connected, "a".into());
    advance(&mut t, &names(), JobEvent::TableFailed("boom".into()), "b".into());
    let frozen = t.clone();
    assert_eq!(advance(&mut t, &names(), JobEvent::TableCopied, "c".into()), JobAction::Finished);
    assert_eq!(t, frozen);
    assert_eq!(advance(&mut t, &names(), JobEvent::Connected, "d".into()), JobAction::Finished);
    assert_eq!(t, frozen);
    assert!(!t.begin_table(2, "items"));
    assert!(!t.complete("e".into()));
    assert!(!t.fail_table("f".into(), "items", "again"));
    assert!(!t.fail_setup("g".into(), "again"));
    assert_eq!(t, frozen);
    assert!(t.has_ended());
}

#[test]
fn progress_never_goes_back_or_past_the_total() {
    let mut t = fresh(3);
    assert!(t.begin_table(1, "orders"));
    assert!(!t.begin_table(0, "users"));
    assert_eq!(t.progress.as_ref().unwrap().current, 1);
    assert!(!t.begin_table(3, "nothing"));
    assert_eq!(t.progress.as_ref().unwrap().current, 1);
    assert!(t.begin_table(1, "orders"));
    assert!(t.begin_table(2, "items"));
    assert_eq!(t.progress.as_ref().unwrap().current, 2);
}

#[test]
fn pending_task_runs_once_taken_up() {
    let mut t = TaskStatus {
        id: "p".into(),
        status: TaskState::Pending,
        start_time: None,
        end_time: None,
        message: None,
        progress: Some(Progress { current: 0, total: 2, table_name: String::new() }),
    };
    assert!(!t.complete("x".into()));
    assert_eq!(t.status, TaskState::Pending);
    assert!(t.take_up("2024-01-01 10:00:00".into()));
    assert_eq!(t.status, TaskState::Running);
    assert_eq!(t.start_time.as_deref(), Some("2024-01-01 10:00:00"));
    assert!(!t.take_up("later".into()));
    assert_eq!(t.start_time.as_deref(), Some("2024-01-01 10:00:00"));
}

#[test]
fn pending_task_runs_when_its_first_table_begins() {
    let mut t = TaskStatus {
        id: "p".into(),
        status: TaskState::Pending,
        start_time: None,
        end_time: None,
        message: None,
        progress: Some(Progress { current: 0, total: 2, table_name: String::new() }),
    };
    assert!(t.begin_table(0, "users"));
    assert_eq!(t.status, TaskState::Running);
}

#[test]
fn store_holds_the_latest_snapshot_per_id() {
    let mut store = TaskStore::new();
    assert_eq!(store.get("a"), None);
    let mut a = fresh(2);
    a.id = "a".into();
    let mut b = fresh(5);
    b.id = "b".into();
    store.put(a.clone());
    store.put(b.clone());
    assert_eq!(store.get("a"), Some(a.clone()));
    assert_eq!(store.get("b"), Some(b.clone()));
    a.begin_table(1, "orders");
    store.put(a.clone());
    assert_eq!(store.get("a"), Some(a));
    assert_eq!(store.get("b"), Some(b));
    assert_eq!(store.get("c"), None);
}

#[test]
fn status_prefers_memory_and_falls_back_on_storage() {
    let mut store = TaskStore::new();
    let mut held = fresh(2);
    held.id = "a".into();
    store.put(held.clone());
    let mut persisted = fresh(9);
    persisted.id = "a".into();
    assert_eq!(store.status("a", Some(persisted.clone())), Some(held));
    persisted.id = "z".into();
    assert_eq!(store.status("z", Some(persisted.clone())), Some(persisted));
    assert_eq!(store.status("z", None), None);
}

#[test]
fn pending_task_whose_connection_fails_ends_failed() {
    let mut t = TaskStatus {
        id: "p".into(),
        status: TaskState::Pending,
        start_time: None,
        end_time: None,
        message: None,
        progress: Some(Progress { current: 0, total: 2, table_name: String::new() }),
    };
    let action = advance(&mut t, &names(), JobEvent::ConnectFailed("Connection error: down".into()), "now".into());
    assert_eq!(action, JobAction::Finished);
    assert_eq!(t.status, TaskState::Failed);
    assert_eq!(t.start_time.as_deref(), Some("now"));
    assert_eq!(t.end_time.as_deref(), Some("now"));
    assert_eq!(t.message.as_deref(), Some("初始化失败: Connection error: down"));
}

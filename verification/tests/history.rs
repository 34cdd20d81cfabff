use db_copier::history::{merge_newest_first, overlay, place, text_before_or_same};
use db_copier::model::{TaskState, TaskStatus};
use db_copier::task::TaskStore;

fn task(id: &str, start: Option<&str>) -> TaskStatus {
    let mut t = TaskStatus::started(id.to_string(), String::new(), 1);
    t.start_time = start.map(|s| s.to_string());
    t
}

fn ids(tasks: &[TaskStatus]) -> Vec<String> {
    tasks.iter().map(|t| t.id.clone()).collect()
}

#[test]
fn texts_are_ordered_character_by_character() {
    assert!(text_before_or_same("", ""));
    assert!(text_before_or_same("", "a"));
    assert!(!text_before_or_same("a", ""));
    assert!(text_before_or_same("abc", "abc"));
    assert!(text_before_or_same("abc", "abd"));
    assert!(!text_before_or_same("abd", "abc"));
    assert!(text_before_or_same("ab", "abc"));
    assert!(!text_before_or_same("abc", "ab"));
    assert!(text_before_or_same("2024-01-01 09:59:59", "2024-01-01 10:00:00"));
    assert!(text_before_or_same("z", "é"));
    for (a, b) in [("a", "b"), ("é", "z"), ("北", "京"), ("x", "xy"), ("", "")] {
        assert_eq!(text_before_or_same(a, b), a <= b);
        assert_eq!(text_before_or_same(b, a), b <= a);
    }
}

#[test]
fn held_snapshot_replaces_the_persisted_one_of_its_id() {
    let mut list = vec![task("a", Some("1")), task("b", Some("2")), task("a", Some("3"))];
    let mut newer = task("a", Some("9"));
    newer.status = TaskState::Completed;
    overlay(&mut list, newer.clone());
    assert_eq!(list, vec![newer, task("b", Some("2")), task("a", Some("3"))]);
    overlay(&mut list, task("c", None));
    assert_eq!(ids(&list), vec!["a", "b", "a", "c"]);
}

#[test]
fn task_is_placed_behind_those_that_started_no_earlier() {
    let mut list = vec![task("c", Some("30")), task("b", Some("20")), task("a", Some("10"))];
    place(&mut list, task("x", Some("20")));
    assert_eq!(ids(&list), vec!["c", "b", "x", "a"]);
    place(&mut list, task("y", Some("40")));
    assert_eq!(ids(&list), vec!["y", "c", "b", "x", "a"]);
    place(&mut list, task("z", None));
    assert_eq!(ids(&list), vec!["y", "c", "b", "x", "a", "z"]);
}

#[test]
fn all_tasks_come_newest_first_with_memory_over_storage() {
    let persisted = vec![
        task("20240101100000", Some("2024-01-01 10:00:00")),
        task("20240101090000", Some("2024-01-01 09:00:00")),
        task("old", None),
    ];
    let mut store = TaskStore::new();
    let mut running = task("20240101090000", Some("2024-01-01 09:00:00"));
    running.begin_table(0, "users");
    store.put(running.clone());
    store.put(task("20240101110000", Some("2024-01-01 11:00:00")));
    let all = store.merged_with(persisted);
    assert_eq!(ids(&all), vec!["20240101110000", "20240101100000", "20240101090000", "old"]);
    assert_eq!(all[2], running);
}

#[test]
fn tasks_of_one_start_time_keep_their_order() {
    let persisted = vec![task("p", Some("5")), task("q", Some("5")), task("r", Some("7")), task("s", Some("5"))];
    let all = merge_newest_first(persisted, &vec![task("t", Some("5"))]);
    assert_eq!(ids(&all), vec!["r", "p", "q", "s", "t"]);
}

#[test]
fn nothing_persisted_and_nothing_held_gives_nothing() {
    assert!(TaskStore::new().merged_with(vec![]).is_empty());
}

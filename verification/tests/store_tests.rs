use task_core::Task;
use task_core::TaskStore;

#[test]
fn lib_it_works() {
    let task = Task::new("Todo".to_string());
    assert_eq!(task.message, "Todo".to_string());
}

#[test]
fn new_task_is_not_done() {
    let task = Task::new("write it down".to_string());
    assert!(!task.done);
}

#[test]
fn snapshot_length_counts_appends_in_order() {
    let mut store = TaskStore::new();
    assert_eq!(store.len(), 0);
    let mut expected: Vec<String> = Vec::new();
    let mut i: usize = 0;
    while i < 5 {
        let message = format!("task number {}", i);
        expected.push(message.clone());
        let snap = store.append(Task::new(message));
        assert_eq!(snap.len(), i + 1);
        assert_eq!(store.len(), i + 1);
        i += 1;
    }
    let snap = store.snapshot();
    assert_eq!(snap.len(), 5);
    let mut j: usize = 0;
    while j < 5 {
        assert_eq!(snap[j].message, expected[j]);
        assert!(!snap[j].done);
        j += 1;
    }
}

#[test]
fn replace_valid_updates_exactly_one_record() {
    let mut store = TaskStore::new();
    store.append(Task::new("first".to_string()));
    store.append(Task::new("second".to_string()));
    store.append(Task::new("third".to_string()));
    let replacement = Task {
        message: "second, reworded".to_string(),
        done: true,
    };
    let (snap, found) = store.replace_at(1, replacement);
    assert!(found);
    assert_eq!(snap.len(), 3);
    assert_eq!(snap[0].message, "first");
    assert!(!snap[0].done);
    assert_eq!(snap[1].message, "second, reworded");
    assert!(snap[1].done);
    assert_eq!(snap[2].message, "third");
    assert!(!snap[2].done);
}

#[test]
fn replace_invalid_returns_not_found_and_changes_nothing() {
    let mut store = TaskStore::new();
    store.append(Task::new("only".to_string()));
    let before = store.snapshot();
    let (after, found) = store.replace_at(3, Task::new("ghostly".to_string()));
    assert!(!found);
    assert_eq!(after.len(), before.len());
    let mut i: usize = 0;
    while i < before.len() {
        assert_eq!(after[i].message, before[i].message);
        assert_eq!(after[i].done, before[i].done);
        i += 1;
    }
}

#[test]
fn remove_valid_shifts_later_tasks_down() {
    let mut store = TaskStore::new();
    store.append(Task::new("a".to_string()));
    store.append(Task::new("b".to_string()));
    store.append(Task::new("c".to_string()));
    store.append(Task::new("d".to_string()));
    let (snap, found) = store.remove_at(1);
    assert!(found);
    assert_eq!(snap.len(), 3);
    assert_eq!(snap[0].message, "a");
    assert_eq!(snap[1].message, "c");
    assert_eq!(snap[2].message, "d");
}

#[test]
fn remove_invalid_is_a_no_op() {
    let mut store = TaskStore::new();
    store.append(Task::new("keep me".to_string()));
    let (snap, found) = store.remove_at(1);
    assert!(!found);
    assert_eq!(snap.len(), 1);
    assert_eq!(snap[0].message, "keep me");
    let (snap2, found2) = store.remove_at(usize::MAX);
    assert!(!found2);
    assert_eq!(snap2.len(), 1);
}

#[test]
fn interleaved_appends_lose_and_duplicate_nothing() {
    // Two callers' appends, serialized by the store's exclusion boundary into
    // one interleaved order: every append lands, exactly once, in that order.
    let caller_a = ["a0", "a1", "a2"];
    let caller_b = ["b0", "b1", "b2"];
    let mut store = TaskStore::new();
    let mut serialized: Vec<&str> = Vec::new();
    let mut i: usize = 0;
    while i < 3 {
        store.append(Task::new(caller_a[i].to_string()));
        serialized.push(caller_a[i]);
        store.append(Task::new(caller_b[i].to_string()));
        serialized.push(caller_b[i]);
        i += 1;
    }
    let snap = store.snapshot();
    assert_eq!(snap.len(), 6);
    let mut j: usize = 0;
    while j < 6 {
        assert_eq!(snap[j].message, serialized[j]);
        j += 1;
    }
}

#[test]
fn snapshot_is_a_copy_not_a_live_reference() {
    let mut store = TaskStore::new();
    store.append(Task::new("original".to_string()));
    let mut snap = store.snapshot();
    snap[0].message = "scribbled over".to_string();
    snap.clear();
    let fresh = store.snapshot();
    assert_eq!(fresh.len(), 1);
    assert_eq!(fresh[0].message, "original");
}

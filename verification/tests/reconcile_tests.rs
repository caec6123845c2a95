use tasksync::reconcile::{clear_confirmed, reconcile, PushOp};
use tasksync::record::{Payload, Record, TaskFields};

fn task(id: &str, title: &str, updated_at: Option<&str>, pending_sync: bool) -> Record {
    Record {
        id: id.to_string(),
        payload: Payload::Task(TaskFields {
            title: title.to_string(),
            date: "2024-01-01".to_string(),
            description: String::new(),
            project: "inbox".to_string(),
            completed: false,
            completed_on: None,
        }),
        updated_at: updated_at.map(|s| s.to_string()),
        pending_sync,
    }
}

#[test]
fn scenario_local_newer_keeps_local_and_pushes_update() {
    let local = vec![task("1", "local edit", Some("2024-01-02T00:00:00Z"), true)];
    let remote = vec![task("1", "remote", Some("2024-01-01T00:00:00Z"), false)];
    let (merged, ops) = reconcile(&local, &remote, &vec![]);
    assert_eq!(merged.len(), 1);
    assert_eq!(merged[0], local[0]);
    assert!(merged[0].pending_sync);
    assert_eq!(ops.len(), 1);
    match &ops[0] {
        PushOp::Update(r) => assert_eq!(r, &local[0]),
        other => panic!("expected an update, got {:?}", other),
    }
}

#[test]
fn scenario_remote_newer_adopts_remote_and_pushes_nothing() {
    let local = vec![task("1", "local edit", Some("2024-01-01T00:00:00Z"), true)];
    let remote = vec![task("1", "remote", Some("2024-01-02T00:00:00Z"), false)];
    let (merged, ops) = reconcile(&local, &remote, &vec![]);
    assert_eq!(merged.len(), 1);
    assert_eq!(merged[0].id, "1");
    match &merged[0].payload {
        Payload::Task(t) => assert_eq!(t.title, "remote"),
        other => panic!("expected a task, got {:?}", other),
    }
    assert!(!merged[0].pending_sync);
    assert!(ops.is_empty());
}

#[test]
fn equal_timestamps_keep_local() {
    let local = vec![task("1", "local edit", Some("2024-01-01T00:00:00Z"), true)];
    let remote = vec![task("1", "remote", Some("2024-01-01T00:00:00Z"), false)];
    let (merged, ops) = reconcile(&local, &remote, &vec![]);
    assert_eq!(merged[0], local[0]);
    assert_eq!(ops.len(), 1);
}

#[test]
fn missing_local_timestamp_wins_over_any_remote() {
    let local = vec![task("1", "local edit", None, true)];
    let remote = vec![task("1", "remote", Some("2999-12-31T23:59:59Z"), false)];
    let (merged, ops) = reconcile(&local, &remote, &vec![]);
    assert_eq!(merged.len(), 1);
    assert_eq!(merged[0], local[0]);
    assert!(merged[0].pending_sync);
    assert_eq!(ops.len(), 1);
    assert!(matches!(&ops[0], PushOp::Update(r) if r.id == "1"));
}

#[test]
fn missing_remote_timestamp_keeps_pending_local() {
    let local = vec![task("1", "local edit", Some("2024-01-01T00:00:00Z"), true)];
    let remote = vec![task("1", "remote", None, false)];
    let (merged, ops) = reconcile(&local, &remote, &vec![]);
    assert_eq!(merged[0], local[0]);
    assert_eq!(ops.len(), 1);
}

#[test]
fn non_pending_local_loses_to_remote_unconditionally() {
    let local = vec![task("1", "stale local", Some("2999-01-01T00:00:00Z"), false)];
    let remote = vec![task("1", "remote", Some("2024-01-01T00:00:00Z"), false)];
    let (merged, ops) = reconcile(&local, &remote, &vec![]);
    match &merged[0].payload {
        Payload::Task(t) => assert_eq!(t.title, "remote"),
        other => panic!("expected a task, got {:?}", other),
    }
    assert!(!merged[0].pending_sync);
    assert!(ops.is_empty());
}

#[test]
fn only_remote_is_adopted_without_push() {
    let local: Vec<Record> = vec![];
    let remote = vec![task("7", "new remote", Some("2024-03-01T00:00:00Z"), true)];
    let (merged, ops) = reconcile(&local, &remote, &vec![]);
    assert_eq!(merged.len(), 1);
    assert_eq!(merged[0].id, "7");
    assert!(!merged[0].pending_sync);
    assert!(ops.is_empty());
}

#[test]
fn only_local_pending_is_kept_and_pushed_as_creation() {
    let local = vec![task("9", "offline creation", None, true)];
    let remote: Vec<Record> = vec![];
    let (merged, ops) = reconcile(&local, &remote, &vec![]);
    assert_eq!(merged.len(), 1);
    assert_eq!(merged[0], local[0]);
    assert_eq!(ops.len(), 1);
    assert!(matches!(&ops[0], PushOp::Create(r) if r.id == "9"));
}

#[test]
fn only_local_not_pending_is_dropped() {
    let local = vec![task("9", "remotely deleted", Some("2024-01-01T00:00:00Z"), false)];
    let remote: Vec<Record> = vec![];
    let (merged, ops) = reconcile(&local, &remote, &vec![]);
    assert!(merged.is_empty());
    assert!(ops.is_empty());
}

#[test]
fn locally_deleted_id_pushes_deletion_and_stays_out() {
    let local: Vec<Record> = vec![];
    let remote = vec![task("4", "to delete", None, false)];
    let deleted = vec!["4".to_string()];
    let (merged, ops) = reconcile(&local, &remote, &deleted);
    assert!(merged.is_empty());
    assert_eq!(ops.len(), 1);
    assert!(matches!(&ops[0], PushOp::Delete(id) if id == "4"));
}

#[test]
fn rerunning_on_merged_state_is_idempotent() {
    let local = vec![
        task("1", "pending newer", Some("2024-01-02T00:00:00Z"), true),
        task("2", "pending older", Some("2024-01-01T00:00:00Z"), true),
        task("3", "never edited", Some("2024-01-01T00:00:00Z"), false),
        task("4", "offline creation", None, true),
    ];
    let remote = vec![
        task("1", "remote one", Some("2024-01-01T00:00:00Z"), false),
        task("2", "remote two", Some("2024-06-01T00:00:00Z"), false),
        task("3", "remote three", Some("2024-06-01T00:00:00Z"), false),
        task("5", "remote only", Some("2024-06-01T00:00:00Z"), false),
        task("6", "deleted here", Some("2024-06-01T00:00:00Z"), false),
    ];
    let deleted = vec!["6".to_string()];
    let (merged, ops) = reconcile(&local, &remote, &deleted);
    let (merged_again, ops_again) = reconcile(&merged, &remote, &deleted);
    assert_eq!(merged_again, merged);
    assert_eq!(ops_again, ops);
}

#[test]
fn quiescent_snapshots_push_nothing() {
    let local = vec![
        task("1", "same", Some("2024-01-01T00:00:00Z"), false),
        task("2", "same", None, false),
    ];
    let remote = vec![
        task("1", "same", Some("2024-01-01T00:00:00Z"), false),
        task("2", "same", None, false),
    ];
    let (merged, ops) = reconcile(&local, &remote, &vec![]);
    assert!(ops.is_empty());
    let (merged_again, ops_again) = reconcile(&merged, &remote, &vec![]);
    assert_eq!(merged_again, merged);
    assert!(ops_again.is_empty());
}

#[test]
fn merged_set_keeps_one_record_per_id() {
    let local = vec![
        task("1", "a", None, true),
        task("2", "b", Some("2024-01-01T00:00:00Z"), false),
    ];
    let remote = vec![
        task("2", "remote b", Some("2024-02-01T00:00:00Z"), false),
        task("3", "remote c", None, false),
    ];
    let (merged, _) = reconcile(&local, &remote, &vec![]);
    let mut ids: Vec<&str> = merged.iter().map(|r| r.id.as_str()).collect();
    ids.sort();
    let before = ids.len();
    ids.dedup();
    assert_eq!(ids.len(), before);
    assert_eq!(ids, vec!["1", "2", "3"]);
}

#[test]
fn confirmed_pushes_clear_pending_only_for_their_ids() {
    let records = vec![
        task("1", "confirmed", Some("2024-01-02T00:00:00Z"), true),
        task("2", "still pending", None, true),
        task("3", "never pending", None, false),
    ];
    let confirmed = vec!["1".to_string()];
    let cleared = clear_confirmed(&records, &confirmed);
    assert_eq!(cleared.len(), 3);
    assert!(!cleared[0].pending_sync);
    assert!(cleared[1].pending_sync);
    assert!(!cleared[2].pending_sync);
    assert_eq!(cleared[0].id, "1");
    match &cleared[0].payload {
        Payload::Task(t) => assert_eq!(t.title, "confirmed"),
        other => panic!("expected a task, got {:?}", other),
    }
}

#[test]
fn after_confirmed_pushes_next_cycle_is_quiet() {
    let local = vec![task("1", "local edit", Some("2024-01-02T00:00:00Z"), true)];
    let remote = vec![task("1", "remote", Some("2024-01-01T00:00:00Z"), false)];
    let (merged, ops) = reconcile(&local, &remote, &vec![]);
    assert_eq!(ops.len(), 1);
    let confirmed = vec!["1".to_string()];
    let settled = clear_confirmed(&merged, &confirmed);
    // The provider now holds the pushed state: its next snapshot is the settled set.
    let (next, next_ops) = reconcile(&settled, &settled, &vec![]);
    assert_eq!(next, settled);
    assert!(next_ops.is_empty());
}

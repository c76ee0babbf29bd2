use file_catalog::gc::{file_gc_task_name, file_gc_tick, GC_GRACE_SECS, GC_SWEEP_INTERVAL_SECS};
use file_catalog::metadata::MetaValue;
use file_catalog::records::FileRecord;
use file_catalog::sources::FileTable;
use file_catalog::store::TaskStore;
use file_catalog::task::{AdminTaskInitiator, AdminTaskStatus};

fn upload(id: u128, uploaded_at: i64, ready: bool) -> FileRecord {
    FileRecord {
        id,
        name: format!("upload-{id}"),
        size: 4,
        mime_type: "image/png".to_owned(),
        uploaded_at,
        tags: vec![],
        is_ready: ready,
    }
}

#[test]
fn sweep_deletes_stale_unready_uploads_only() {
    let now: i64 = 100_000;
    let three_hours_ago = now - 3 * 3600;
    let mut store = TaskStore::new();
    let mut files = FileTable::new();
    // never marked ready, three hours old: swept
    files.insert(upload(1, three_hours_ago, false));
    // ready and just as old: untouched
    files.insert(upload(2, three_hours_ago, true));
    // unready but younger than the grace window: untouched
    files.insert(upload(3, now - 100, false));

    let task = file_gc_tick(&mut store, &mut files, now, true);

    assert_eq!(files.len(), 2);
    let ready_page = files.list_page(10, &None);
    assert_eq!(ready_page.len(), 1);
    assert_eq!(ready_page[0].id, 2);

    assert_eq!(task.name, file_gc_task_name());
    assert_eq!(task.initiator, AdminTaskInitiator::System);
    assert_eq!(task.status, AdminTaskStatus::Completed);
    assert!(matches!(task.metadata.get("success"), Some(MetaValue::Bool(true))));
    assert!(task.metadata.get("error").is_none());
}

#[test]
fn failed_sweep_leaves_the_table_and_records_the_failure() {
    let now: i64 = 100_000;
    let mut store = TaskStore::new();
    let mut files = FileTable::new();
    files.insert(upload(1, now - 3 * 3600, false));

    let task = file_gc_tick(&mut store, &mut files, now, false);

    assert_eq!(files.len(), 1);
    assert_eq!(task.status, AdminTaskStatus::Completed);
    assert!(matches!(task.metadata.get("success"), Some(MetaValue::Bool(false))));
    assert!(matches!(task.metadata.get("error"), Some(MetaValue::Str(_))));
}

#[test]
fn sweep_outcome_is_readable_from_the_store() {
    let now: i64 = 50_000;
    let mut store = TaskStore::new();
    let mut files = FileTable::new();
    let task = file_gc_tick(&mut store, &mut files, now, true);
    let read_back = store.get_task(task.id).unwrap();
    assert_eq!(read_back.status, AdminTaskStatus::Completed);
    assert_eq!(read_back.enqueued_at, now);
    // a terminal-status task never becomes the active task of its name
    assert!(store.get_last_active_task(file_gc_task_name()).is_none());
}

#[test]
fn grace_window_is_shorter_than_the_sweep_interval() {
    assert!((GC_GRACE_SECS as u64) < GC_SWEEP_INTERVAL_SECS);
}

#[test]
fn sweep_schedule_puts_the_cutoff_one_grace_window_back() {
    let (now, cutoff) = file_catalog::gc::sweep_schedule_from_clock();
    assert_eq!(cutoff, now - GC_GRACE_SECS);
}

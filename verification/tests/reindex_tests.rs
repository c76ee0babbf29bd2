use file_catalog::checkpoint::{decode_file_cursor, encode_null_file_cursor};
use file_catalog::checkpoint::encode_null_collection_cursor;
use file_catalog::reindex::{
    collection_reindex_tick, combined_interval_secs, file_reindex_tick, next_interval_secs,
    reindex_collections_task_name, reindex_files_task_name, run_file_reindex_to_completion,
    TickEvent, TickError, TickIo, TickResult,
};
use file_catalog::records::{CollectionRecord, FileRecord};
use file_catalog::sink::{CollectionIndexSink, FileIndexSink};
use file_catalog::sources::{CollectionTable, FileTable};
use file_catalog::store::TaskStore;
use file_catalog::task::{AdminTaskInitiator, AdminTaskStatus};
use file_catalog::{FAST_INTERVAL_SECS, SLOW_INTERVAL_SECS};

fn file(id: u128, uploaded_at: i64) -> FileRecord {
    FileRecord {
        id,
        name: format!("file-{id}"),
        size: 1,
        mime_type: "application/octet-stream".to_owned(),
        uploaded_at,
        tags: vec![],
        is_ready: true,
    }
}

fn enqueue_file_reindex(store: &mut TaskStore, now: i64) -> u128 {
    let t = store.enqueue(
        AdminTaskInitiator::User,
        reindex_files_task_name().to_owned(),
        encode_null_file_cursor(),
        None,
        true,
        now,
    );
    t.id
}

#[test]
fn tick_without_task_is_idle_and_slow() {
    let mut store = TaskStore::new();
    let source = FileTable::new();
    let mut sink = FileIndexSink::new();
    let (r, events) = file_reindex_tick(&mut store, &source, &mut sink, TickIo::all_ok(), 1);
    assert_eq!(r, Ok(TickResult::NoTask));
    assert!(events.is_empty());
    assert_eq!(next_interval_secs(&r), SLOW_INTERVAL_SECS);
}

#[test]
fn batched_drain_indexes_2500_files_in_three_passes() {
    let mut store = TaskStore::new();
    let mut source = FileTable::new();
    // newest first in scan order: file 1 has the latest upload time
    for i in 1..=2500u128 {
        source.insert(file(i, 1_000_000 - i as i64));
    }
    let mut sink = FileIndexSink::new();
    let task_id = enqueue_file_reindex(&mut store, 10);

    let (r1, _) = file_reindex_tick(&mut store, &source, &mut sink, TickIo::all_ok(), 11);
    assert_eq!(r1, Ok(TickResult::TaskNotCompleted));
    assert_eq!(sink.len(), 1000);
    assert_eq!(next_interval_secs(&r1), FAST_INTERVAL_SECS);
    let task = store.get_task(task_id).unwrap();
    assert_eq!(task.status, AdminTaskStatus::InProgress);
    let cursor = decode_file_cursor(&task.metadata).unwrap();
    assert_eq!(cursor.id, 1000);
    assert_eq!(cursor.uploaded_at, 1_000_000 - 1000);

    let (r2, _) = file_reindex_tick(&mut store, &source, &mut sink, TickIo::all_ok(), 12);
    assert_eq!(r2, Ok(TickResult::TaskNotCompleted));
    assert_eq!(sink.len(), 2000);

    let (r3, _) = file_reindex_tick(&mut store, &source, &mut sink, TickIo::all_ok(), 13);
    assert_eq!(r3, Ok(TickResult::TaskNotCompleted));
    assert_eq!(sink.len(), 2500);
    let task = store.get_task(task_id).unwrap();
    let cursor = decode_file_cursor(&task.metadata).unwrap();
    assert_eq!(cursor.id, 2500);

    let (r4, _) = file_reindex_tick(&mut store, &source, &mut sink, TickIo::all_ok(), 14);
    assert_eq!(r4, Ok(TickResult::TaskCompleted));
    assert_eq!(sink.len(), 2500);
    assert_eq!(next_interval_secs(&r4), SLOW_INTERVAL_SECS);
    let task = store.get_task(task_id).unwrap();
    assert_eq!(task.status, AdminTaskStatus::Completed);
    assert!(store.get_last_active_task(reindex_files_task_name()).is_none());

    // every file indexed exactly once, in scan order
    for i in 0..2500usize {
        assert_eq!(sink.entry(i).id, (i + 1) as u128);
    }
}

#[test]
fn pending_task_turns_in_progress_before_the_source_is_read() {
    let mut store = TaskStore::new();
    let mut source = FileTable::new();
    source.insert(file(1, 50));
    let mut sink = FileIndexSink::new();
    let task_id = enqueue_file_reindex(&mut store, 1);
    let (_, events) = file_reindex_tick(&mut store, &source, &mut sink, TickIo::all_ok(), 2);
    assert_eq!(
        events[0],
        TickEvent::StatusSet { id: task_id, status: AdminTaskStatus::InProgress }
    );
    assert!(matches!(events[1], TickEvent::SourceRead { .. }));
}

#[test]
fn sink_failure_fails_the_task_and_keeps_the_cursor() {
    let mut store = TaskStore::new();
    let mut source = FileTable::new();
    source.insert(file(1, 50));
    let mut sink = FileIndexSink::new();
    let task_id = enqueue_file_reindex(&mut store, 1);
    let io = TickIo { source_ok: true, sink_ok: false };
    let (r, _) = file_reindex_tick(&mut store, &source, &mut sink, io, 2);
    assert_eq!(r, Err(TickError::SinkWrite));
    assert_eq!(sink.len(), 0);
    let task = store.get_task(task_id).unwrap();
    assert_eq!(task.status, AdminTaskStatus::Failed);
    // no partial-credit cursor advance: the metadata still holds no cursor
    assert!(decode_file_cursor(&task.metadata).is_none());
    assert_eq!(next_interval_secs(&r), SLOW_INTERVAL_SECS);
}

#[test]
fn source_failure_fails_the_task_without_indexing() {
    let mut store = TaskStore::new();
    let mut source = FileTable::new();
    source.insert(file(1, 50));
    let mut sink = FileIndexSink::new();
    let task_id = enqueue_file_reindex(&mut store, 1);
    let io = TickIo { source_ok: false, sink_ok: true };
    let (r, _) = file_reindex_tick(&mut store, &source, &mut sink, io, 2);
    assert_eq!(r, Err(TickError::SourceRead));
    assert_eq!(sink.len(), 0);
    let task = store.get_task(task_id).unwrap();
    assert_eq!(task.status, AdminTaskStatus::Failed);
}

#[test]
fn failed_task_resumes_from_last_persisted_cursor_on_retrigger() {
    let mut store = TaskStore::new();
    let mut source = FileTable::new();
    for i in 1..=3u128 {
        source.insert(file(i, 100 - i as i64));
    }
    let mut sink = FileIndexSink::new();
    enqueue_file_reindex(&mut store, 1);
    let (r, _) = file_reindex_tick(
        &mut store,
        &source,
        &mut sink,
        TickIo { source_ok: true, sink_ok: false },
        2,
    );
    assert_eq!(r, Err(TickError::SinkWrite));
    // the operator re-triggers; the old Failed row is canceled
    enqueue_file_reindex(&mut store, 3);
    let (r1, _) = file_reindex_tick(&mut store, &source, &mut sink, TickIo::all_ok(), 4);
    assert_eq!(r1, Ok(TickResult::TaskNotCompleted));
    assert_eq!(sink.len(), 3);
}

#[test]
fn drain_covers_every_ready_file_exactly_once() {
    let mut store = TaskStore::new();
    let mut source = FileTable::new();
    for i in 1..=7u128 {
        source.insert(file(i, 100 - i as i64));
    }
    let mut sink = FileIndexSink::new();
    let task_id = enqueue_file_reindex(&mut store, 1);
    run_file_reindex_to_completion(&mut store, &source, &mut sink, 2);
    assert_eq!(sink.len(), 7);
    for i in 0..7usize {
        assert_eq!(sink.entry(i).id, (i + 1) as u128);
    }
    assert_eq!(store.get_task(task_id).unwrap().status, AdminTaskStatus::Completed);
}

#[test]
fn collection_tick_walks_by_name_and_completes() {
    let mut store = TaskStore::new();
    let mut source = CollectionTable::new();
    source.insert(CollectionRecord {
        id: 2,
        name: "beta".to_owned(),
        created_at: 0,
        tags: vec![],
    });
    source.insert(CollectionRecord {
        id: 1,
        name: "alpha".to_owned(),
        created_at: 0,
        tags: vec![],
    });
    let mut sink = CollectionIndexSink::new();
    let task = store.enqueue(
        AdminTaskInitiator::User,
        reindex_collections_task_name().to_owned(),
        encode_null_collection_cursor(),
        None,
        true,
        1,
    );
    let (r1, _) = collection_reindex_tick(&mut store, &source, &mut sink, TickIo::all_ok(), 2);
    assert_eq!(r1, Ok(TickResult::TaskNotCompleted));
    assert_eq!(sink.len(), 2);
    assert_eq!(sink.entry(0).name, "alpha");
    assert_eq!(sink.entry(1).name, "beta");
    let (r2, _) = collection_reindex_tick(&mut store, &source, &mut sink, TickIo::all_ok(), 3);
    assert_eq!(r2, Ok(TickResult::TaskCompleted));
    assert_eq!(store.get_task(task.id).unwrap().status, AdminTaskStatus::Completed);
}

#[test]
fn shared_timer_takes_the_shorter_interval() {
    assert_eq!(combined_interval_secs(SLOW_INTERVAL_SECS, FAST_INTERVAL_SECS), 1);
    assert_eq!(combined_interval_secs(FAST_INTERVAL_SECS, SLOW_INTERVAL_SECS), 1);
    assert_eq!(
        combined_interval_secs(SLOW_INTERVAL_SECS, SLOW_INTERVAL_SECS),
        SLOW_INTERVAL_SECS
    );
}

#[test]
fn trigger_creates_one_fresh_active_task_per_entity_type() {
    let mut store = TaskStore::new();
    let mut source = FileTable::new();
    source.insert(file(1, 50));
    let mut sink = FileIndexSink::new();
    let (old_file_task, _) = file_catalog::reindex::trigger_reindex(&mut store, 1);
    let (file_task, collection_task) = file_catalog::reindex::trigger_reindex(&mut store, 2);
    assert_eq!(file_task.status, AdminTaskStatus::Pending);
    assert_eq!(collection_task.status, AdminTaskStatus::Pending);
    assert_eq!(file_task.initiator, AdminTaskInitiator::User);
    // the earlier file task is superseded
    assert_eq!(
        store.get_task(old_file_task.id).unwrap().status,
        AdminTaskStatus::Canceled
    );
    let active = store.get_last_active_task(reindex_files_task_name()).unwrap();
    assert_eq!(active.id, file_task.id);
    // and the fresh task drives a scan from the start of the stream
    let (r, _) = file_reindex_tick(&mut store, &source, &mut sink, TickIo::all_ok(), 3);
    assert_eq!(r, Ok(TickResult::TaskNotCompleted));
    assert_eq!(sink.len(), 1);
}

//! The re-index scheduler: one checkpointed unit of work per tick.
//!
//! A tick looks up the active task for its entity type, makes "work is
//! underway" visible by writing InProgress before anything else, decodes the
//! checkpoint cursor out of the task metadata, reads one page from the
//! entity source, pushes it into the index sink, and persists the advanced
//! cursor. An empty page completes the task; any failure marks it Failed and
//! leaves the cursor untouched, so a later re-trigger resumes from the last
//! successfully persisted checkpoint. The tick reports whether work remains,
//! which drives the two-speed poll cadence.

use vstd::prelude::*;
use crate::checkpoint::{
    decode_collection_cursor, decode_file_cursor, encode_collection_cursor, encode_file_cursor,
    collection_cursor_doc, collection_cursor_of_doc, file_cursor_doc, file_cursor_of_doc,
};
use crate::records::{
    collection_cursor_of, collection_views, file_cursor_of, file_views, CollectionCursor,
    CollectionCursorV, CollectionRecordV, FileCursor, FileCursorV, FileRecordV,
};
use crate::sink::{CollectionIndexSink, FileIndexSink};
use crate::sources::{collection_page, file_page, CollectionTable, FileTable};
use crate::store::{first_active, set_metadata_by_id, set_status_by_id, TaskStore};
use crate::task::{AdminTaskStatus, TaskView};
use crate::{FAST_INTERVAL_SECS, SLOW_INTERVAL_SECS};

verus! {

/// How many entities one tick reads and indexes at most.
pub const REINDEX_BATCH_SIZE: usize = 1000;

/// The task name under which file re-indexing is enqueued.
pub open spec fn spec_reindex_files_task_name() -> Seq<char> {
    "reindex-files"@
}

/// The task name under which file re-indexing is enqueued.
pub fn reindex_files_task_name() -> (r: &'static str)
    ensures
        r@ == spec_reindex_files_task_name(),
{
    "reindex-files"
}

/// The task name under which collection re-indexing is enqueued.
pub open spec fn spec_reindex_collections_task_name() -> Seq<char> {
    "reindex-collections"@
}

/// The task name under which collection re-indexing is enqueued.
pub fn reindex_collections_task_name() -> (r: &'static str)
    ensures
        r@ == spec_reindex_collections_task_name(),
{
    "reindex-collections"
}

/// What one tick found: no task to work on, a task with work remaining, or
/// a task that just ran out of work.
#[derive(Clone, Copy, Debug, PartialEq, Eq, Structural)]
pub enum TickResult {
    NoTask,
    TaskNotCompleted,
    TaskCompleted,
}

/// Which collaborator call failed the tick.
#[derive(Clone, Copy, Debug, PartialEq, Eq, Structural)]
pub enum TickError {
    SourceRead,
    SinkWrite,
}

/// The outcome of the collaborator calls a tick is about to make: whether
/// the source read and the index write succeed. The scheduler decides the
/// same way whatever comes back; these flags stand for the transient
/// failures of the outside world.
#[derive(Clone, Copy, Debug, PartialEq, Eq, Structural)]
pub struct TickIo {
    pub source_ok: bool,
    pub sink_ok: bool,
}

impl TickIo {
    /// Both collaborator calls succeed.
    pub fn all_ok() -> (r: TickIo)
        ensures
            r.source_ok && r.sink_ok,
    {
        TickIo { source_ok: true, sink_ok: true }
    }
}

/// One externally observable step of a tick, in the order it happened.
#[derive(Clone, Copy, Debug, PartialEq, Eq, Structural)]
pub enum TickEvent {
    StatusSet { id: u128, status: AdminTaskStatus },
    SourceRead { limit: usize },
    SinkPush { count: usize },
    MetadataSet { id: u128 },
}

/// The mathematical value of a [`TickEvent`].
pub enum TickEventV {
    StatusSet { id: int, status: AdminTaskStatus },
    SourceRead { limit: int },
    SinkPush { count: int },
    MetadataSet { id: int },
}

impl View for TickEvent {
    type V = TickEventV;

    open spec fn view(&self) -> TickEventV {
        match *self {
            TickEvent::StatusSet { id, status } => TickEventV::StatusSet {
                id: id as int,
                status,
            },
            TickEvent::SourceRead { limit } => TickEventV::SourceRead { limit: limit as int },
            TickEvent::SinkPush { count } => TickEventV::SinkPush { count: count as int },
            TickEvent::MetadataSet { id } => TickEventV::MetadataSet { id: id as int },
        }
    }
}

/// The views of a sequence of tick events.
pub open spec fn event_views(s: Seq<TickEvent>) -> Seq<TickEventV> {
    Seq::new(s.len(), |i: int| s[i]@)
}

/// The checkpointed unit of work of one file tick, given the task it works
/// on: decode the cursor, read one page, push it, persist the new cursor.
/// The caller has already made the task InProgress.
fn file_reindex_tick_for_task(
    task_id: u128,
    metadata: &crate::metadata::MetaDoc,
    store: &mut TaskStore,
    source: &FileTable,
    sink: &mut FileIndexSink,
    io: TickIo,
    now: i64,
    events: &mut Vec<TickEvent>,
) -> (r: Result<TickResult, TickError>)
    requires
        old(store).wf(),
    ensures
        final(store).wf(),
        final(store)@.next_id == old(store)@.next_id,
        ({
            let c = file_cursor_of_doc(metadata@);
            let page = file_page(source@, c, REINDEX_BATCH_SIZE as int);
            if !io.source_ok {
                &&& r == Err::<TickResult, TickError>(TickError::SourceRead)
                &&& final(store)@ == old(store)@
                &&& final(sink)@ == old(sink)@
                &&& final(events)@ == old(events)@.push(
                    TickEvent::SourceRead { limit: REINDEX_BATCH_SIZE },
                )
            } else if page.len() == 0 {
                &&& r == Ok::<TickResult, TickError>(TickResult::TaskCompleted)
                &&& final(store)@ == old(store)@
                &&& final(sink)@ == old(sink)@
                &&& final(events)@ == old(events)@.push(
                    TickEvent::SourceRead { limit: REINDEX_BATCH_SIZE },
                )
            } else if !io.sink_ok {
                &&& r == Err::<TickResult, TickError>(TickError::SinkWrite)
                &&& final(store)@ == old(store)@
                &&& final(sink)@ == old(sink)@
                &&& event_views(final(events)@) == event_views(old(events)@) + seq![
                    TickEventV::SourceRead { limit: REINDEX_BATCH_SIZE as int },
                    TickEventV::SinkPush { count: page.len() as int },
                ]
            } else {
                &&& r == Ok::<TickResult, TickError>(TickResult::TaskNotCompleted)
                &&& final(sink)@ == old(sink)@ + page
                &&& final(store)@.tasks == set_metadata_by_id(
                    old(store)@.tasks,
                    task_id as int,
                    file_cursor_doc(file_cursor_of(page.last())),
                    now as int,
                )
                &&& event_views(final(events)@) == event_views(old(events)@) + seq![
                    TickEventV::SourceRead { limit: REINDEX_BATCH_SIZE as int },
                    TickEventV::SinkPush { count: page.len() as int },
                    TickEventV::MetadataSet { id: task_id as int },
                ]
            }
        }),
{
    let cursor = decode_file_cursor(metadata);
    if !io.source_ok {
        events.push(TickEvent::SourceRead { limit: REINDEX_BATCH_SIZE });
        return Err(TickError::SourceRead);
    }
    let page = source.list_page(REINDEX_BATCH_SIZE, &cursor);
    events.push(TickEvent::SourceRead { limit: REINDEX_BATCH_SIZE });
    if page.len() == 0 {
        // no more entities to index; the task is completed
        proof {
            assert(file_views(page@) == file_page(
                source@,
                file_cursor_of_doc(metadata@),
                REINDEX_BATCH_SIZE as int,
            ));
        }
        return Ok(TickResult::TaskCompleted);
    }
    let ghost pre_events = events@;
    if !io.sink_ok {
        events.push(TickEvent::SinkPush { count: page.len() });
        proof {
            assert(event_views(events@) =~= event_views(old(events)@) + seq![
                TickEventV::SourceRead { limit: REINDEX_BATCH_SIZE as int },
                TickEventV::SinkPush {
                    count: file_page(
                        source@,
                        file_cursor_of_doc(metadata@),
                        REINDEX_BATCH_SIZE as int,
                    ).len() as int,
                },
            ]);
        }
        return Err(TickError::SinkWrite);
    }
    sink.upsert_batch(&page);
    events.push(TickEvent::SinkPush { count: page.len() });
    let last = &page[page.len() - 1];
    let new_cursor = FileCursor { id: last.id, uploaded_at: last.uploaded_at };
    let doc = encode_file_cursor(&new_cursor);
    store.update_metadata(task_id, &doc, now);
    events.push(TickEvent::MetadataSet { id: task_id });
    proof {
        let page_spec = file_page(
            source@,
            file_cursor_of_doc(metadata@),
            REINDEX_BATCH_SIZE as int,
        );
        assert(last@ == page_spec.last());
        assert(new_cursor@ == file_cursor_of(page_spec.last()));
        assert(event_views(events@) =~= event_views(old(events)@) + seq![
            TickEventV::SourceRead { limit: REINDEX_BATCH_SIZE as int },
            TickEventV::SinkPush { count: page_spec.len() as int },
            TickEventV::MetadataSet { id: task_id as int },
        ]);
    }
    Ok(TickResult::TaskNotCompleted)
}

/// One tick of the file re-index scheduler against the task store, the file
/// source and the index sink. The task in Pending (or already InProgress)
/// is marked InProgress before any source read is attempted; an empty page
/// completes it; a failure marks it Failed and leaves its checkpoint
/// metadata untouched. The event list says what was written, in order.
pub fn file_reindex_tick(
    store: &mut TaskStore,
    source: &FileTable,
    sink: &mut FileIndexSink,
    io: TickIo,
    now: i64,
) -> (out: (Result<TickResult, TickError>, Vec<TickEvent>))
    requires
        old(store).wf(),
    ensures
        final(store).wf(),
        final(store)@.next_id == old(store)@.next_id,
        ({
            let tasks0 = old(store)@.tasks;
            let fname = spec_reindex_files_task_name();
            match first_active(tasks0, fname) {
                None => {
                    &&& out.0 == Ok::<TickResult, TickError>(TickResult::NoTask)
                    &&& final(store)@ == old(store)@
                    &&& final(sink)@ == old(sink)@
                    &&& out.1@ == Seq::<TickEvent>::empty()
                },
                Some(j) => {
                    let t = tasks0[j];
                    let tasks1 = set_status_by_id(
                        tasks0,
                        t.id,
                        AdminTaskStatus::InProgress,
                        now as int,
                    );
                    let c = file_cursor_of_doc(t.metadata);
                    let page = file_page(source@, c, REINDEX_BATCH_SIZE as int);
                    if !io.source_ok {
                        &&& out.0 == Err::<TickResult, TickError>(TickError::SourceRead)
                        &&& final(store)@.tasks == set_status_by_id(
                            tasks1,
                            t.id,
                            AdminTaskStatus::Failed,
                            now as int,
                        )
                        &&& final(sink)@ == old(sink)@
                        &&& event_views(out.1@) == seq![
                            TickEventV::StatusSet {
                                id: t.id,
                                status: AdminTaskStatus::InProgress,
                            },
                            TickEventV::SourceRead { limit: REINDEX_BATCH_SIZE as int },
                            TickEventV::StatusSet { id: t.id, status: AdminTaskStatus::Failed },
                        ]
                    } else if page.len() == 0 {
                        &&& out.0 == Ok::<TickResult, TickError>(TickResult::TaskCompleted)
                        &&& final(store)@.tasks == set_status_by_id(
                            tasks1,
                            t.id,
                            AdminTaskStatus::Completed,
                            now as int,
                        )
                        &&& final(sink)@ == old(sink)@
                        &&& event_views(out.1@) == seq![
                            TickEventV::StatusSet {
                                id: t.id,
                                status: AdminTaskStatus::InProgress,
                            },
                            TickEventV::SourceRead { limit: REINDEX_BATCH_SIZE as int },
                            TickEventV::StatusSet {
                                id: t.id,
                                status: AdminTaskStatus::Completed,
                            },
                        ]
                    } else if !io.sink_ok {
                        &&& out.0 == Err::<TickResult, TickError>(TickError::SinkWrite)
                        &&& final(store)@.tasks == set_status_by_id(
                            tasks1,
                            t.id,
                            AdminTaskStatus::Failed,
                            now as int,
                        )
                        &&& final(sink)@ == old(sink)@
                        &&& event_views(out.1@) == seq![
                            TickEventV::StatusSet {
                                id: t.id,
                                status: AdminTaskStatus::InProgress,
                            },
                            TickEventV::SourceRead { limit: REINDEX_BATCH_SIZE as int },
                            TickEventV::SinkPush { count: page.len() as int },
                            TickEventV::StatusSet { id: t.id, status: AdminTaskStatus::Failed },
                        ]
                    } else {
                        &&& out.0 == Ok::<TickResult, TickError>(TickResult::TaskNotCompleted)
                        &&& final(sink)@ == old(sink)@ + page
                        &&& final(store)@.tasks == set_metadata_by_id(
                            tasks1,
                            t.id,
                            file_cursor_doc(file_cursor_of(page.last())),
                            now as int,
                        )
                        &&& event_views(out.1@) == seq![
                            TickEventV::StatusSet {
                                id: t.id,
                                status: AdminTaskStatus::InProgress,
                            },
                            TickEventV::SourceRead { limit: REINDEX_BATCH_SIZE as int },
                            TickEventV::SinkPush { count: page.len() as int },
                            TickEventV::MetadataSet { id: t.id },
                        ]
                    }
                },
            }
        }),
{
    let mut events: Vec<TickEvent> = Vec::new();
    let task = match store.get_last_active_task(reindex_files_task_name()) {
        Some(t) => t,
        None => {
            proof {
                assert(events@ =~= Seq::<TickEvent>::empty());
            }
            return (Ok(TickResult::NoTask), events);
        },
    };
    let task_id = task.id;
    store.update_status(task_id, AdminTaskStatus::InProgress, now);
    events.push(TickEvent::StatusSet { id: task_id, status: AdminTaskStatus::InProgress });
    let ghost e0 = events@;
    let ghost tasks0 = old(store)@.tasks;
    let ghost j = choose|jj: int| first_active(tasks0, spec_reindex_files_task_name()) == Some(
        jj,
    );
    let ghost t = tasks0[j];
    let ghost page = file_page(
        source@,
        file_cursor_of_doc(t.metadata),
        REINDEX_BATCH_SIZE as int,
    );
    proof {
        assert(task@ == t);
        assert(task.metadata@ == t.metadata);
        assert(task_id as int == t.id);
    }
    let result = file_reindex_tick_for_task(
        task_id,
        &task.metadata,
        store,
        source,
        sink,
        io,
        now,
        &mut events,
    );
    match result {
        Ok(r) => {
            if matches!(r, TickResult::TaskCompleted) {
                store.update_status(task_id, AdminTaskStatus::Completed, now);
                events.push(
                    TickEvent::StatusSet { id: task_id, status: AdminTaskStatus::Completed },
                );
                proof {
                    assert(event_views(events@) =~= seq![
                        TickEventV::StatusSet { id: t.id, status: AdminTaskStatus::InProgress },
                        TickEventV::SourceRead { limit: REINDEX_BATCH_SIZE as int },
                        TickEventV::StatusSet { id: t.id, status: AdminTaskStatus::Completed },
                    ]);
                }
            } else {
                proof {
                    assert(event_views(events@) =~= seq![
                        TickEventV::StatusSet { id: t.id, status: AdminTaskStatus::InProgress },
                        TickEventV::SourceRead { limit: REINDEX_BATCH_SIZE as int },
                        TickEventV::SinkPush { count: page.len() as int },
                        TickEventV::MetadataSet { id: t.id },
                    ]);
                }
            }
            (Ok(r), events)
        },
        Err(err) => {
            let ghost e1 = events@;
            store.update_status(task_id, AdminTaskStatus::Failed, now);
            events.push(TickEvent::StatusSet { id: task_id, status: AdminTaskStatus::Failed });
            proof {
                if !io.source_ok {
                    assert(event_views(events@) =~= seq![
                        TickEventV::StatusSet { id: t.id, status: AdminTaskStatus::InProgress },
                        TickEventV::SourceRead { limit: REINDEX_BATCH_SIZE as int },
                        TickEventV::StatusSet { id: t.id, status: AdminTaskStatus::Failed },
                    ]);
                } else {
                    assert(page.len() > 0);
                    assert(!io.sink_ok);
                    assert(event_views(e0) =~= seq![
                        TickEventV::StatusSet { id: t.id, status: AdminTaskStatus::InProgress },
                    ]);
                    assert(event_views(e1) =~= seq![
                        TickEventV::StatusSet { id: t.id, status: AdminTaskStatus::InProgress },
                        TickEventV::SourceRead { limit: REINDEX_BATCH_SIZE as int },
                        TickEventV::SinkPush { count: page.len() as int },
                    ]);
                    assert(events@ == e1.push(
                        TickEvent::StatusSet { id: task_id, status: AdminTaskStatus::Failed },
                    ));
                    assert(event_views(events@) =~= seq![
                        TickEventV::StatusSet { id: t.id, status: AdminTaskStatus::InProgress },
                        TickEventV::SourceRead { limit: REINDEX_BATCH_SIZE as int },
                        TickEventV::SinkPush { count: page.len() as int },
                        TickEventV::StatusSet { id: t.id, status: AdminTaskStatus::Failed },
                    ]);
                }
            }
            (Err(err), events)
        },
    }
}

/// The next poll interval after a tick: fast while a backlog remains, the
/// slow default cadence otherwise (nothing to do, just completed, or
/// failed).
pub fn next_interval_secs(outcome: &Result<TickResult, TickError>) -> (r: u64)
    ensures
        r == (match *outcome {
            Ok(TickResult::TaskNotCompleted) => FAST_INTERVAL_SECS,
            _ => SLOW_INTERVAL_SECS,
        }),
{
    match outcome {
        Ok(TickResult::TaskNotCompleted) => FAST_INTERVAL_SECS,
        _ => SLOW_INTERVAL_SECS,
    }
}

/// When one shared timer drives several entity types, the loop waits for
/// the shorter of their intervals, so one type's backlog is not starved by
/// another's idleness.
pub fn combined_interval_secs(a: u64, b: u64) -> (r: u64)
    ensures
        r == (if a <= b {
            a
        } else {
            b
        }),
{
    if a <= b {
        a
    } else {
        b
    }
}

/// The checkpointed unit of work of one collection tick, given the task it
/// works on. The caller has already made the task InProgress.
fn collection_reindex_tick_for_task(
    task_id: u128,
    metadata: &crate::metadata::MetaDoc,
    store: &mut TaskStore,
    source: &CollectionTable,
    sink: &mut CollectionIndexSink,
    io: TickIo,
    now: i64,
    events: &mut Vec<TickEvent>,
) -> (r: Result<TickResult, TickError>)
    requires
        old(store).wf(),
    ensures
        final(store).wf(),
        final(store)@.next_id == old(store)@.next_id,
        ({
            let c = collection_cursor_of_doc(metadata@);
            let page = collection_page(source@, c, REINDEX_BATCH_SIZE as int);
            if !io.source_ok {
                &&& r == Err::<TickResult, TickError>(TickError::SourceRead)
                &&& final(store)@ == old(store)@
                &&& final(sink)@ == old(sink)@
                &&& final(events)@ == old(events)@.push(
                    TickEvent::SourceRead { limit: REINDEX_BATCH_SIZE },
                )
            } else if page.len() == 0 {
                &&& r == Ok::<TickResult, TickError>(TickResult::TaskCompleted)
                &&& final(store)@ == old(store)@
                &&& final(sink)@ == old(sink)@
                &&& final(events)@ == old(events)@.push(
                    TickEvent::SourceRead { limit: REINDEX_BATCH_SIZE },
                )
            } else if !io.sink_ok {
                &&& r == Err::<TickResult, TickError>(TickError::SinkWrite)
                &&& final(store)@ == old(store)@
                &&& final(sink)@ == old(sink)@
                &&& event_views(final(events)@) == event_views(old(events)@) + seq![
                    TickEventV::SourceRead { limit: REINDEX_BATCH_SIZE as int },
                    TickEventV::SinkPush { count: page.len() as int },
                ]
            } else {
                &&& r == Ok::<TickResult, TickError>(TickResult::TaskNotCompleted)
                &&& final(sink)@ == old(sink)@ + page
                &&& final(store)@.tasks == set_metadata_by_id(
                    old(store)@.tasks,
                    task_id as int,
                    collection_cursor_doc(collection_cursor_of(page.last())),
                    now as int,
                )
                &&& event_views(final(events)@) == event_views(old(events)@) + seq![
                    TickEventV::SourceRead { limit: REINDEX_BATCH_SIZE as int },
                    TickEventV::SinkPush { count: page.len() as int },
                    TickEventV::MetadataSet { id: task_id as int },
                ]
            }
        }),
{
    let cursor = decode_collection_cursor(metadata);
    if !io.source_ok {
        events.push(TickEvent::SourceRead { limit: REINDEX_BATCH_SIZE });
        return Err(TickError::SourceRead);
    }
    let page = source.list_page(REINDEX_BATCH_SIZE, &cursor);
    events.push(TickEvent::SourceRead { limit: REINDEX_BATCH_SIZE });
    if page.len() == 0 {
        // no more entities to index; the task is completed
        proof {
            assert(collection_views(page@) == collection_page(
                source@,
                collection_cursor_of_doc(metadata@),
                REINDEX_BATCH_SIZE as int,
            ));
        }
        return Ok(TickResult::TaskCompleted);
    }
    if !io.sink_ok {
        events.push(TickEvent::SinkPush { count: page.len() });
        proof {
            assert(event_views(events@) =~= event_views(old(events)@) + seq![
                TickEventV::SourceRead { limit: REINDEX_BATCH_SIZE as int },
                TickEventV::SinkPush {
                    count: collection_page(
                        source@,
                        collection_cursor_of_doc(metadata@),
                        REINDEX_BATCH_SIZE as int,
                    ).len() as int,
                },
            ]);
        }
        return Err(TickError::SinkWrite);
    }
    sink.upsert_batch(&page);
    events.push(TickEvent::SinkPush { count: page.len() });
    let last = &page[page.len() - 1];
    let new_cursor = CollectionCursor { id: last.id, name: last.name.clone() };
    let doc = encode_collection_cursor(&new_cursor);
    store.update_metadata(task_id, &doc, now);
    events.push(TickEvent::MetadataSet { id: task_id });
    proof {
        let page_spec = collection_page(
            source@,
            collection_cursor_of_doc(metadata@),
            REINDEX_BATCH_SIZE as int,
        );
        assert(last@ == page_spec.last());
        assert(new_cursor@ == collection_cursor_of(page_spec.last()));
        assert(event_views(events@) =~= event_views(old(events)@) + seq![
            TickEventV::SourceRead { limit: REINDEX_BATCH_SIZE as int },
            TickEventV::SinkPush { count: page_spec.len() as int },
            TickEventV::MetadataSet { id: task_id as int },
        ]);
    }
    Ok(TickResult::TaskNotCompleted)
}

/// One tick of the collection re-index scheduler: the same checkpointed
/// step as the file tick, against the collection source and sink.
pub fn collection_reindex_tick(
    store: &mut TaskStore,
    source: &CollectionTable,
    sink: &mut CollectionIndexSink,
    io: TickIo,
    now: i64,
) -> (out: (Result<TickResult, TickError>, Vec<TickEvent>))
    requires
        old(store).wf(),
    ensures
        final(store).wf(),
        final(store)@.next_id == old(store)@.next_id,
        ({
            let tasks0 = old(store)@.tasks;
            let fname = spec_reindex_collections_task_name();
            match first_active(tasks0, fname) {
                None => {
                    &&& out.0 == Ok::<TickResult, TickError>(TickResult::NoTask)
                    &&& final(store)@ == old(store)@
                    &&& final(sink)@ == old(sink)@
                    &&& out.1@ == Seq::<TickEvent>::empty()
                },
                Some(j) => {
                    let t = tasks0[j];
                    let tasks1 = set_status_by_id(
                        tasks0,
                        t.id,
                        AdminTaskStatus::InProgress,
                        now as int,
                    );
                    let c = collection_cursor_of_doc(t.metadata);
                    let page = collection_page(source@, c, REINDEX_BATCH_SIZE as int);
                    if !io.source_ok {
                        &&& out.0 == Err::<TickResult, TickError>(TickError::SourceRead)
                        &&& final(store)@.tasks == set_status_by_id(
                            tasks1,
                            t.id,
                            AdminTaskStatus::Failed,
                            now as int,
                        )
                        &&& final(sink)@ == old(sink)@
                        &&& event_views(out.1@) == seq![
                            TickEventV::StatusSet {
                                id: t.id,
                                status: AdminTaskStatus::InProgress,
                            },
                            TickEventV::SourceRead { limit: REINDEX_BATCH_SIZE as int },
                            TickEventV::StatusSet { id: t.id, status: AdminTaskStatus::Failed },
                        ]
                    } else if page.len() == 0 {
                        &&& out.0 == Ok::<TickResult, TickError>(TickResult::TaskCompleted)
                        &&& final(store)@.tasks == set_status_by_id(
                            tasks1,
                            t.id,
                            AdminTaskStatus::Completed,
                            now as int,
                        )
                        &&& final(sink)@ == old(sink)@
                        &&& event_views(out.1@) == seq![
                            TickEventV::StatusSet {
                                id: t.id,
                                status: AdminTaskStatus::InProgress,
                            },
                            TickEventV::SourceRead { limit: REINDEX_BATCH_SIZE as int },
                            TickEventV::StatusSet {
                                id: t.id,
                                status: AdminTaskStatus::Completed,
                            },
                        ]
                    } else if !io.sink_ok {
                        &&& out.0 == Err::<TickResult, TickError>(TickError::SinkWrite)
                        &&& final(store)@.tasks == set_status_by_id(
                            tasks1,
                            t.id,
                            AdminTaskStatus::Failed,
                            now as int,
                        )
                        &&& final(sink)@ == old(sink)@
                        &&& event_views(out.1@) == seq![
                            TickEventV::StatusSet {
                                id: t.id,
                                status: AdminTaskStatus::InProgress,
                            },
                            TickEventV::SourceRead { limit: REINDEX_BATCH_SIZE as int },
                            TickEventV::SinkPush { count: page.len() as int },
                            TickEventV::StatusSet { id: t.id, status: AdminTaskStatus::Failed },
                        ]
                    } else {
                        &&& out.0 == Ok::<TickResult, TickError>(TickResult::TaskNotCompleted)
                        &&& final(sink)@ == old(sink)@ + page
                        &&& final(store)@.tasks == set_metadata_by_id(
                            tasks1,
                            t.id,
                            collection_cursor_doc(collection_cursor_of(page.last())),
                            now as int,
                        )
                        &&& event_views(out.1@) == seq![
                            TickEventV::StatusSet {
                                id: t.id,
                                status: AdminTaskStatus::InProgress,
                            },
                            TickEventV::SourceRead { limit: REINDEX_BATCH_SIZE as int },
                            TickEventV::SinkPush { count: page.len() as int },
                            TickEventV::MetadataSet { id: t.id },
                        ]
                    }
                },
            }
        }),
{
    let mut events: Vec<TickEvent> = Vec::new();
    let task = match store.get_last_active_task(reindex_collections_task_name()) {
        Some(t) => t,
        None => {
            proof {
                assert(events@ =~= Seq::<TickEvent>::empty());
            }
            return (Ok(TickResult::NoTask), events);
        },
    };
    let task_id = task.id;
    store.update_status(task_id, AdminTaskStatus::InProgress, now);
    events.push(TickEvent::StatusSet { id: task_id, status: AdminTaskStatus::InProgress });
    let ghost e0 = events@;
    let ghost tasks0 = old(store)@.tasks;
    let ghost j = choose|jj: int|
        first_active(tasks0, spec_reindex_collections_task_name()) == Some(jj);
    let ghost t = tasks0[j];
    let ghost page = collection_page(
        source@,
        collection_cursor_of_doc(t.metadata),
        REINDEX_BATCH_SIZE as int,
    );
    proof {
        assert(task@ == t);
        assert(task.metadata@ == t.metadata);
        assert(task_id as int == t.id);
    }
    let result = collection_reindex_tick_for_task(
        task_id,
        &task.metadata,
        store,
        source,
        sink,
        io,
        now,
        &mut events,
    );
    match result {
        Ok(r) => {
            if matches!(r, TickResult::TaskCompleted) {
                store.update_status(task_id, AdminTaskStatus::Completed, now);
                events.push(
                    TickEvent::StatusSet { id: task_id, status: AdminTaskStatus::Completed },
                );
                proof {
                    assert(event_views(events@) =~= seq![
                        TickEventV::StatusSet { id: t.id, status: AdminTaskStatus::InProgress },
                        TickEventV::SourceRead { limit: REINDEX_BATCH_SIZE as int },
                        TickEventV::StatusSet { id: t.id, status: AdminTaskStatus::Completed },
                    ]);
                }
            } else {
                proof {
                    assert(event_views(events@) =~= seq![
                        TickEventV::StatusSet { id: t.id, status: AdminTaskStatus::InProgress },
                        TickEventV::SourceRead { limit: REINDEX_BATCH_SIZE as int },
                        TickEventV::SinkPush { count: page.len() as int },
                        TickEventV::MetadataSet { id: t.id },
                    ]);
                }
            }
            (Ok(r), events)
        },
        Err(err) => {
            let ghost e1 = events@;
            store.update_status(task_id, AdminTaskStatus::Failed, now);
            events.push(TickEvent::StatusSet { id: task_id, status: AdminTaskStatus::Failed });
            proof {
                if !io.source_ok {
                    assert(event_views(events@) =~= seq![
                        TickEventV::StatusSet { id: t.id, status: AdminTaskStatus::InProgress },
                        TickEventV::SourceRead { limit: REINDEX_BATCH_SIZE as int },
                        TickEventV::StatusSet { id: t.id, status: AdminTaskStatus::Failed },
                    ]);
                } else {
                    assert(page.len() > 0);
                    assert(!io.sink_ok);
                    assert(event_views(e0) =~= seq![
                        TickEventV::StatusSet { id: t.id, status: AdminTaskStatus::InProgress },
                    ]);
                    assert(event_views(e1) =~= seq![
                        TickEventV::StatusSet { id: t.id, status: AdminTaskStatus::InProgress },
                        TickEventV::SourceRead { limit: REINDEX_BATCH_SIZE as int },
                        TickEventV::SinkPush { count: page.len() as int },
                    ]);
                    assert(events@ == e1.push(
                        TickEvent::StatusSet { id: task_id, status: AdminTaskStatus::Failed },
                    ));
                    assert(event_views(events@) =~= seq![
                        TickEventV::StatusSet { id: t.id, status: AdminTaskStatus::InProgress },
                        TickEventV::SourceRead { limit: REINDEX_BATCH_SIZE as int },
                        TickEventV::SinkPush { count: page.len() as int },
                        TickEventV::StatusSet { id: t.id, status: AdminTaskStatus::Failed },
                    ]);
                }
            }
            (Err(err), events)
        },
    }
}

/// Where a scan stands. With the cursor at the start of the stream or on
/// the `k`-th ready record, the records a page request keeps are exactly
/// the ready records not yet handed out: none is revisited, none skipped.
pub proof fn lemma_file_scan_position(src: Seq<FileRecordV>, c: Option<FileCursorV>, k: int)
    requires
        crate::sources::file_stream_sorted(src),
        0 <= k <= crate::sources::ready_files(src).len(),
        if k == 0 {
            c is None
        } else {
            c == Some(file_cursor_of(crate::sources::ready_files(src)[k - 1]))
        },
    ensures
        src.filter(|f: FileRecordV| crate::sources::file_page_keep(f, c))
            == crate::sources::ready_files(src).skip(k),
{
    let kept = |f: FileRecordV| crate::sources::file_page_keep(f, c);
    let ready = |f: FileRecordV| f.is_ready;
    let past = |f: FileRecordV|
        match c {
            Some(cv) => crate::records::file_after_cursor(f, cv),
            None => true,
        };
    let all = crate::sources::ready_files(src);
    assert(forall|x: FileRecordV| #[trigger] kept(x) == (ready(x) && past(x)));
    crate::paging::lemma_filter_compose(src, ready, past, kept);
    assert(all == src.filter(ready));
    let lt = |a: FileRecordV, b: FileRecordV| crate::records::file_before(a, b);
    assert(crate::paging::pairwise(src, lt)) by {
        assert forall|i: int, j: int| 0 <= i < j < src.len() implies #[trigger] lt(
            src[i],
            src[j],
        ) by {
            assert(crate::records::file_before(src[i], src[j]));
        }
    }
    crate::paging::lemma_filter_pairwise(src, ready, lt);
    if k == 0 {
        assert forall|i: int| 0 <= i < all.len() implies past(#[trigger] all[i]) by {}
        crate::paging::lemma_filter_of_all(all, past);
        assert(all.skip(0) =~= all);
    } else {
        let anchor = all[k - 1];
        assert forall|i: int| 0 <= i < k implies !past(#[trigger] all[i]) by {
            if i < k - 1 {
                assert(lt(all[i], anchor));
            }
        }
        assert forall|i: int| k <= i < all.len() implies past(#[trigger] all[i]) by {
            assert(lt(anchor, all[i]));
        }
        crate::paging::lemma_filter_is_skip(all, past, k);
    }
}

/// A full re-index pass: from a task checkpointed at the start of the
/// stream, ticks are run until the task completes. The sink receives every
/// ready file of the source exactly once, in scan order; the task ends
/// Completed; no other task row is disturbed.
pub fn run_file_reindex_to_completion(
    store: &mut TaskStore,
    source: &FileTable,
    sink: &mut FileIndexSink,
    now: i64,
)
    requires
        old(store).wf(),
        source.wf(),
        match first_active(old(store)@.tasks, spec_reindex_files_task_name()) {
            Some(j) => file_cursor_of_doc(old(store)@.tasks[j].metadata) is None,
            None => false,
        },
    ensures
        final(store).wf(),
        final(sink)@ == old(sink)@ + crate::sources::ready_files(source@),
        ({
            let tasks0 = old(store)@.tasks;
            let j = choose|jj: int|
                first_active(tasks0, spec_reindex_files_task_name()) == Some(jj);
            &&& final(store)@.tasks.len() == tasks0.len()
            &&& forall|i: int|
                0 <= i < tasks0.len() && i != j ==> final(store)@.tasks[i] == tasks0[i]
            &&& final(store)@.tasks[j].id == tasks0[j].id
            &&& final(store)@.tasks[j].name == tasks0[j].name
            &&& final(store)@.tasks[j].status == AdminTaskStatus::Completed
        }),
{
    let ghost tasks0 = old(store)@.tasks;
    let ghost j = choose|jj: int| first_active(tasks0, spec_reindex_files_task_name()) == Some(
        jj,
    );
    let ghost all = crate::sources::ready_files(source@);
    let ghost mut k: int = 0;
    proof {
        crate::store::lemma_first_active_from_props(
            tasks0,
            spec_reindex_files_task_name(),
            0,
            j,
        );
        assert(old(sink)@ + all.take(0) =~= old(sink)@);
    }
    loop
        invariant_except_break
            store.wf(),
            source.wf(),
            tasks0 == old(store)@.tasks,
            first_active(tasks0, spec_reindex_files_task_name()) == Some(j),
            0 <= j < tasks0.len(),
            all == crate::sources::ready_files(source@),
            0 <= k <= all.len(),
            sink@ == old(sink)@ + all.take(k),
            store@.tasks.len() == tasks0.len(),
            forall|i: int|
                0 <= i < tasks0.len() && i != j ==> #[trigger] store@.tasks[i] == tasks0[i],
            store@.tasks[j].id == tasks0[j].id,
            store@.tasks[j].name == tasks0[j].name,
            store@.tasks[j].status.spec_is_active(),
            first_active(store@.tasks, spec_reindex_files_task_name()) == Some(j),
            file_cursor_of_doc(store@.tasks[j].metadata) == (if k == 0 {
                None
            } else {
                Some(file_cursor_of(all[k - 1]))
            }),
        ensures
            store.wf(),
            sink@ == old(sink)@ + crate::sources::ready_files(source@),
            store@.tasks.len() == tasks0.len(),
            forall|i: int|
                0 <= i < tasks0.len() && i != j ==> #[trigger] store@.tasks[i] == tasks0[i],
            store@.tasks[j].id == tasks0[j].id,
            store@.tasks[j].name == tasks0[j].name,
            store@.tasks[j].status == AdminTaskStatus::Completed,
        decreases crate::sources::ready_files(source@).len() - k,
    {
        let ghost pre = store@.tasks;
        let ghost cur = pre[j];
        let ghost cursor = file_cursor_of_doc(cur.metadata);
        let ghost page = file_page(source@, cursor, REINDEX_BATCH_SIZE as int);
        proof {
            lemma_file_scan_position(source@, cursor, k);
            assert(page.len() <= all.len() - k);
            assert(forall|i: int| 0 <= i < page.len() ==> page[i] == all[k + i]);
        }
        let out = file_reindex_tick(store, source, sink, TickIo::all_ok(), now);
        match out.0 {
            Ok(TickResult::TaskCompleted) => {
                proof {
                    assert(page.len() == 0);
                    assert(all.skip(k).len() == 0);
                    assert(k == all.len());
                    assert(all.take(k) =~= all);
                    let tasks2 = set_status_by_id(
                        set_status_by_id(pre, cur.id, AdminTaskStatus::InProgress, now as int),
                        cur.id,
                        AdminTaskStatus::Completed,
                        now as int,
                    );
                    assert(store@.tasks == tasks2);
                    assert forall|i: int|
                        0 <= i < tasks0.len() && i != j implies #[trigger] store@.tasks[i]
                        == tasks0[i] by {
                        assert(pre[i].id != pre[j].id);
                    }
                }
                break;
            },
            Ok(TickResult::TaskNotCompleted) => {
                proof {
                    assert(page.len() > 0);
                    let plen = page.len() as int;
                    assert(page.last() == all[k + plen - 1]);
                    let tasks2 = set_metadata_by_id(
                        set_status_by_id(pre, cur.id, AdminTaskStatus::InProgress, now as int),
                        cur.id,
                        file_cursor_doc(file_cursor_of(page.last())),
                        now as int,
                    );
                    assert(store@.tasks == tasks2);
                    assert forall|i: int|
                        0 <= i < tasks0.len() && i != j implies #[trigger] store@.tasks[i]
                        == tasks0[i] by {
                        assert(pre[i].id != pre[j].id);
                    }
                    crate::checkpoint::lemma_file_cursor_round_trip(
                        file_cursor_of(page.last()),
                    );
                    assert(sink@ == old(sink)@ + all.take(k) + page);
                    assert(all.take(k) + page =~= all.take(k + plen)) by {
                        assert(page =~= all.skip(k).take(plen));
                    }
                    assert(sink@ == old(sink)@ + all.take(k + plen));
                    k = k + plen;
                    crate::store::lemma_first_active_stable(
                        pre,
                        store@.tasks,
                        spec_reindex_files_task_name(),
                        j,
                    );
                }
            },
            _ => {
                // unreachable: the task exists and both collaborator calls
                // succeed, so the tick reports progress or completion
                proof {
                    assert(false);
                }
                break;
            },
        }
    }
}

/// Where a collection scan stands: the records a page request keeps are
/// exactly the ones not yet handed out.
pub proof fn lemma_collection_scan_position(
    src: Seq<CollectionRecordV>,
    c: Option<CollectionCursorV>,
    k: int,
)
    requires
        crate::sources::collection_stream_sorted(src),
        0 <= k <= src.len(),
        if k == 0 {
            c is None
        } else {
            c == Some(collection_cursor_of(src[k - 1]))
        },
    ensures
        src.filter(|r: CollectionRecordV| crate::sources::collection_page_keep(r, c))
            == src.skip(k),
{
    let kept = |r: CollectionRecordV| crate::sources::collection_page_keep(r, c);
    if k == 0 {
        assert forall|i: int| 0 <= i < src.len() implies kept(#[trigger] src[i]) by {}
        crate::paging::lemma_filter_of_all(src, kept);
        assert(src.skip(0) =~= src);
    } else {
        let anchor = src[k - 1];
        assert forall|i: int| 0 <= i < k implies !kept(#[trigger] src[i]) by {
            if i < k - 1 {
                assert(crate::records::collection_before(src[i], anchor));
            }
            crate::records::lemma_collection_before_asym(anchor, src[i]);
        }
        assert forall|i: int| k <= i < src.len() implies kept(#[trigger] src[i]) by {
            assert(crate::records::collection_before(anchor, src[i]));
        }
        crate::paging::lemma_filter_is_skip(src, kept, k);
    }
}

/// A full collection re-index pass, the mirror of the file drain: from a
/// task checkpointed at the start of the stream, ticks run until the task
/// completes; the sink receives every collection exactly once, in scan
/// order; no other task row is disturbed.
pub fn run_collection_reindex_to_completion(
    store: &mut TaskStore,
    source: &CollectionTable,
    sink: &mut CollectionIndexSink,
    now: i64,
)
    requires
        old(store).wf(),
        source.wf(),
        match first_active(old(store)@.tasks, spec_reindex_collections_task_name()) {
            Some(j) => collection_cursor_of_doc(old(store)@.tasks[j].metadata) is None,
            None => false,
        },
    ensures
        final(store).wf(),
        final(sink)@ == old(sink)@ + source@,
        ({
            let tasks0 = old(store)@.tasks;
            let j = choose|jj: int|
                first_active(tasks0, spec_reindex_collections_task_name()) == Some(jj);
            &&& final(store)@.tasks.len() == tasks0.len()
            &&& forall|i: int|
                0 <= i < tasks0.len() && i != j ==> final(store)@.tasks[i] == tasks0[i]
            &&& final(store)@.tasks[j].id == tasks0[j].id
            &&& final(store)@.tasks[j].name == tasks0[j].name
            &&& final(store)@.tasks[j].status == AdminTaskStatus::Completed
        }),
{
    let ghost tasks0 = old(store)@.tasks;
    let ghost j = choose|jj: int|
        first_active(tasks0, spec_reindex_collections_task_name()) == Some(jj);
    let ghost all = source@;
    let ghost mut k: int = 0;
    proof {
        crate::store::lemma_first_active_from_props(
            tasks0,
            spec_reindex_collections_task_name(),
            0,
            j,
        );
        assert(old(sink)@ + all.take(0) =~= old(sink)@);
    }
    loop
        invariant_except_break
            store.wf(),
            source.wf(),
            tasks0 == old(store)@.tasks,
            first_active(tasks0, spec_reindex_collections_task_name()) == Some(j),
            0 <= j < tasks0.len(),
            all == source@,
            0 <= k <= all.len(),
            sink@ == old(sink)@ + all.take(k),
            store@.tasks.len() == tasks0.len(),
            forall|i: int|
                0 <= i < tasks0.len() && i != j ==> #[trigger] store@.tasks[i] == tasks0[i],
            store@.tasks[j].id == tasks0[j].id,
            store@.tasks[j].name == tasks0[j].name,
            store@.tasks[j].status.spec_is_active(),
            first_active(store@.tasks, spec_reindex_collections_task_name()) == Some(j),
            collection_cursor_of_doc(store@.tasks[j].metadata) == (if k == 0 {
                None
            } else {
                Some(collection_cursor_of(all[k - 1]))
            }),
        ensures
            store.wf(),
            sink@ == old(sink)@ + source@,
            store@.tasks.len() == tasks0.len(),
            forall|i: int|
                0 <= i < tasks0.len() && i != j ==> #[trigger] store@.tasks[i] == tasks0[i],
            store@.tasks[j].id == tasks0[j].id,
            store@.tasks[j].name == tasks0[j].name,
            store@.tasks[j].status == AdminTaskStatus::Completed,
        decreases source@.len() - k,
    {
        let ghost pre = store@.tasks;
        let ghost cur = pre[j];
        let ghost cursor = collection_cursor_of_doc(cur.metadata);
        let ghost page = collection_page(source@, cursor, REINDEX_BATCH_SIZE as int);
        proof {
            lemma_collection_scan_position(source@, cursor, k);
            assert(page.len() <= all.len() - k);
            assert(forall|i: int| 0 <= i < page.len() ==> page[i] == all[k + i]);
        }
        let out = collection_reindex_tick(store, source, sink, TickIo::all_ok(), now);
        match out.0 {
            Ok(TickResult::TaskCompleted) => {
                proof {
                    assert(page.len() == 0);
                    assert(all.skip(k).len() == 0);
                    assert(k == all.len());
                    assert(all.take(k) =~= all);
                    let tasks2 = set_status_by_id(
                        set_status_by_id(pre, cur.id, AdminTaskStatus::InProgress, now as int),
                        cur.id,
                        AdminTaskStatus::Completed,
                        now as int,
                    );
                    assert(store@.tasks == tasks2);
                    assert forall|i: int|
                        0 <= i < tasks0.len() && i != j implies #[trigger] store@.tasks[i]
                        == tasks0[i] by {
                        assert(pre[i].id != pre[j].id);
                    }
                }
                break;
            },
            Ok(TickResult::TaskNotCompleted) => {
                proof {
                    assert(page.len() > 0);
                    let plen = page.len() as int;
                    assert(page.last() == all[k + plen - 1]);
                    let tasks2 = set_metadata_by_id(
                        set_status_by_id(pre, cur.id, AdminTaskStatus::InProgress, now as int),
                        cur.id,
                        collection_cursor_doc(collection_cursor_of(page.last())),
                        now as int,
                    );
                    assert(store@.tasks == tasks2);
                    assert forall|i: int|
                        0 <= i < tasks0.len() && i != j implies #[trigger] store@.tasks[i]
                        == tasks0[i] by {
                        assert(pre[i].id != pre[j].id);
                    }
                    crate::checkpoint::lemma_collection_cursor_round_trip(
                        collection_cursor_of(page.last()),
                    );
                    assert(sink@ == old(sink)@ + all.take(k) + page);
                    assert(all.take(k) + page =~= all.take(k + plen)) by {
                        assert(page =~= all.skip(k).take(plen));
                    }
                    assert(sink@ == old(sink)@ + all.take(k + plen));
                    k = k + plen;
                    crate::store::lemma_first_active_stable(
                        pre,
                        store@.tasks,
                        spec_reindex_collections_task_name(),
                        j,
                    );
                }
            },
            _ => {
                // unreachable: the task exists and both collaborator calls
                // succeed, so the tick reports progress or completion
                proof {
                    assert(false);
                }
                break;
            },
        }
    }
}

/// The operator's re-index trigger: enqueues one fresh file re-index task
/// and one fresh collection re-index task, each starting at the null
/// cursor, each canceling whatever task of its name was still active. The
/// two rows are created back to back, so after the call each name has
/// exactly one active task: the fresh one.
pub fn trigger_reindex(store: &mut TaskStore, now: i64) -> (pair: (
    crate::task::AdminTask,
    crate::task::AdminTask,
))
    requires
        old(store).wf(),
        old(store)@.next_id + 1 < u128::MAX,
    ensures
        final(store).wf(),
        ({
            let file_task = pair.0;
            let collection_task = pair.1;
            &&& file_task@.name == spec_reindex_files_task_name()
            &&& collection_task@.name == spec_reindex_collections_task_name()
            &&& file_task@.initiator == crate::task::AdminTaskInitiator::User
            &&& collection_task@.initiator == crate::task::AdminTaskInitiator::User
            &&& file_task@.status == AdminTaskStatus::Pending
            &&& collection_task@.status == AdminTaskStatus::Pending
            &&& file_task@.metadata == crate::checkpoint::null_file_cursor_doc()
            &&& collection_task@.metadata == crate::checkpoint::null_collection_cursor_doc()
            &&& file_task@.id == old(store)@.next_id
            &&& collection_task@.id == old(store)@.next_id + 1
            &&& final(store)@.tasks == crate::store::cancel_all(
                crate::store::cancel_all(
                    old(store)@.tasks,
                    spec_reindex_files_task_name(),
                    now as int,
                ).push(file_task@),
                spec_reindex_collections_task_name(),
                now as int,
            ).push(collection_task@)
        }),
{
    let file_task = store.enqueue(
        crate::task::AdminTaskInitiator::User,
        reindex_files_task_name().to_owned(),
        crate::checkpoint::encode_null_file_cursor(),
        None,
        true,
        now,
    );
    let collection_task = store.enqueue(
        crate::task::AdminTaskInitiator::User,
        reindex_collections_task_name().to_owned(),
        crate::checkpoint::encode_null_collection_cursor(),
        None,
        true,
        now,
    );
    (file_task, collection_task)
}

/// What the trigger leaves behind: after [`trigger_reindex`], each entity
/// type's name has exactly one active task — the fresh one, checkpointed
/// at the start of its stream — so a full re-index pass can start from it.
pub proof fn lemma_trigger_prepares_full_reindex(
    tasks0: Seq<TaskView>,
    ft: TaskView,
    ct: TaskView,
    now: int,
)
    requires
        ft.name == spec_reindex_files_task_name(),
        ft.status == AdminTaskStatus::Pending,
        ft.metadata == crate::checkpoint::null_file_cursor_doc(),
        ct.name == spec_reindex_collections_task_name(),
        ct.status == AdminTaskStatus::Pending,
        ct.metadata == crate::checkpoint::null_collection_cursor_doc(),
    ensures
        ({
            let ns = crate::store::cancel_all(
                crate::store::cancel_all(
                    tasks0,
                    spec_reindex_files_task_name(),
                    now,
                ).push(ft),
                spec_reindex_collections_task_name(),
                now,
            ).push(ct);
            &&& first_active(ns, spec_reindex_files_task_name()) == Some(tasks0.len() as int)
            &&& file_cursor_of_doc(ns[tasks0.len() as int].metadata) is None
            &&& first_active(ns, spec_reindex_collections_task_name()) == Some(
                ns.len() - 1,
            )
            &&& collection_cursor_of_doc(ns[ns.len() - 1].metadata) is None
        }),
{
    let fname = spec_reindex_files_task_name();
    let cname = spec_reindex_collections_task_name();
    assert(fname != cname) by {
        reveal_strlit("reindex-files");
        reveal_strlit("reindex-collections");
        assert(fname.len() == 13);
        assert(cname.len() == 19);
    }
    let s1 = crate::store::cancel_all(tasks0, fname, now).push(ft);
    let ns = crate::store::cancel_all(s1, cname, now).push(ct);
    let ft_at = tasks0.len() as int;
    assert(ns[ft_at] == crate::store::cancel_applied(ft, cname, now));
    assert(ns[ft_at] == ft);
    assert forall|i: int|
        0 <= i < ft_at implies !((#[trigger] ns[i]).name == fname
        && ns[i].status.spec_is_active()) by {
        let once = crate::store::cancel_applied(tasks0[i], fname, now);
        assert(ns[i] == crate::store::cancel_applied(once, cname, now));
        if tasks0[i].name == fname {
            assert(once.status == AdminTaskStatus::Canceled);
        }
    }
    crate::store::lemma_first_active_found(ns, fname, ft_at);
    crate::checkpoint::lemma_null_file_cursor_decodes_to_none();
    let ct_at = ns.len() - 1;
    assert(ns[ct_at] == ct);
    assert forall|i: int|
        0 <= i < ct_at implies !((#[trigger] ns[i]).name == cname
        && ns[i].status.spec_is_active()) by {
        if i < ft_at {
            let once = crate::store::cancel_applied(tasks0[i], fname, now);
            assert(ns[i] == crate::store::cancel_applied(once, cname, now));
            if once.name == cname {
                assert(ns[i].status == AdminTaskStatus::Canceled);
            }
        } else {
            assert(ns[i] == ft);
        }
    }
    crate::store::lemma_first_active_found(ns, cname, ct_at);
    crate::checkpoint::lemma_null_collection_cursor_decodes_to_none();
}

} // verus!

//! The lifecycle sweep: a periodic pass that deletes uploads which never
//! became ready and are older than a grace window, then records the outcome
//! as a task with a terminal status. The sweep is not resumable — it either
//! fully completes or fully fails within one tick — so its task needs no
//! Pending or InProgress phase, and ready records are never deleted,
//! whatever their age.

use vstd::prelude::*;
use crate::metadata::{MetaDoc, MetaValue, MetaValueV};
use crate::sources::{survives_sweep, FileTable};
use crate::store::TaskStore;
use crate::task::{AdminTask, AdminTaskInitiator, AdminTaskStatus};

verus! {

/// How often the sweep runs: every six hours.
pub const GC_SWEEP_INTERVAL_SECS: u64 = 21600;

/// The grace window: an unready upload younger than two hours is left
/// alone, since its upload may still be in flight.
pub const GC_GRACE_SECS: i64 = 7200;

/// The task name under which sweep outcomes are recorded.
pub open spec fn spec_file_gc_task_name() -> Seq<char> {
    "file-gc"@
}

/// The task name under which sweep outcomes are recorded.
pub fn file_gc_task_name() -> (r: &'static str)
    ensures
        r@ == spec_file_gc_task_name(),
{
    "file-gc"
}

/// The metadata document recording one sweep's outcome: `success` true, or
/// `success` false with the error's text.
pub open spec fn gc_outcome_doc(error: Option<Seq<char>>) -> Seq<(Seq<char>, MetaValueV)> {
    match error {
        None => seq![("success"@, MetaValueV::Bool(true))],
        Some(msg) => seq![
            ("success"@, MetaValueV::Bool(false)),
            ("error"@, MetaValueV::Str(msg)),
        ],
    }
}

/// Builds the outcome document for a sweep that succeeded (`None`) or
/// failed with the given error text.
pub fn gc_outcome_metadata(error: Option<&str>) -> (d: MetaDoc)
    ensures
        d@ == gc_outcome_doc(match error {
            Some(msg) => Some(msg@),
            None => None,
        }),
{
    let mut entries: Vec<(String, MetaValue)> = Vec::new();
    match error {
        None => {
            entries.push(("success".to_owned(), MetaValue::Bool(true)));
            let d = MetaDoc::from_entries(entries);
            proof {
                assert(d@ =~= gc_outcome_doc(None));
            }
            d
        },
        Some(msg) => {
            entries.push(("success".to_owned(), MetaValue::Bool(false)));
            entries.push(("error".to_owned(), MetaValue::Str(msg.to_owned())));
            let d = MetaDoc::from_entries(entries);
            proof {
                assert(d@ =~= gc_outcome_doc(Some(msg@)));
            }
            d
        },
    }
}

/// One tick of the lifecycle sweep. When the delete succeeds, exactly the
/// unready uploads older than the grace window are gone and the recorded
/// task says success; when it fails, the table is untouched and the task
/// records the failure. Either way the recorded task is terminal from the
/// start: Completed, enqueued by the system, without canceling anything.
pub fn file_gc_tick(
    store: &mut TaskStore,
    files: &mut FileTable,
    now: i64,
    delete_ok: bool,
) -> (t: AdminTask)
    requires
        old(store).wf(),
        old(files).wf(),
        old(store)@.next_id < u128::MAX,
        now >= i64::MIN + GC_GRACE_SECS,
    ensures
        final(store).wf(),
        final(files).wf(),
        final(files)@ == if delete_ok {
            old(files)@.filter(
                |f: crate::records::FileRecordV|
                    survives_sweep(f, now as int - GC_GRACE_SECS as int),
            )
        } else {
            old(files)@
        },
        final(store)@.tasks == old(store)@.tasks.push(t@),
        final(store)@.next_id == old(store)@.next_id + 1,
        t@.name == spec_file_gc_task_name(),
        t@.initiator == AdminTaskInitiator::System,
        t@.status == AdminTaskStatus::Completed,
        t@.metadata == gc_outcome_doc(if delete_ok {
            None
        } else {
            Some("failed to delete stale uploads"@)
        }),
        t@.enqueued_at == now as int,
        t@.updated_at == now as int,
{
    let cutoff = now - GC_GRACE_SECS;
    if delete_ok {
        files.delete_unready_before(cutoff);
    }
    let metadata = if delete_ok {
        gc_outcome_metadata(None)
    } else {
        gc_outcome_metadata(Some("failed to delete stale uploads"))
    };
    store.enqueue(
        AdminTaskInitiator::System,
        file_gc_task_name().to_owned(),
        metadata,
        Some(AdminTaskStatus::Completed),
        false,
        now,
    )
}

/// Relies on `chrono::Utc::now` for the wall clock, read as Unix seconds.
#[verifier::external_body]
fn current_unix_seconds() -> (r: i64) {
    chrono::Utc::now().timestamp()
}

/// Reads the clock and computes the sweep cutoff from it: the moment a
/// grace window before now, clamped at the representable minimum. The
/// clock reading itself carries no promise; the pair's relation does.
pub fn sweep_schedule_from_clock() -> (r: (i64, i64))
    ensures
        r.1 == if r.0 >= i64::MIN + GC_GRACE_SECS {
            r.0 - GC_GRACE_SECS as int
        } else {
            i64::MIN as int
        },
{
    let now = current_unix_seconds();
    let cutoff = if now >= i64::MIN + GC_GRACE_SECS {
        now - GC_GRACE_SECS
    } else {
        i64::MIN
    };
    (now, cutoff)
}

} // verus!

//! The task store: the persistent record of maintenance work. Tasks are
//! created by [`TaskStore::enqueue`], mutated only by the status and
//! metadata updates, and never deleted. Enqueueing with "cancel previous"
//! atomically marks every non-Canceled task of the same name Canceled before
//! the new row appears, so at most one task per name is ever Pending or
//! InProgress under this service's own writes, and "the last active task
//! for a name" is an unambiguous lookup.

use vstd::prelude::*;
use crate::metadata::MetaDoc;
use crate::records::{preview_after_cursor, preview_before, preview_views, AdminTaskCursor, AdminTaskCursorV};
use crate::task::{preview_of, AdminTask, AdminTaskInitiator, AdminTaskPreview, AdminTaskStatus, TaskPreviewView, TaskView};
use crate::text::str_eq;

verus! {

/// The views of a sequence of tasks.
pub open spec fn task_views(s: Seq<AdminTask>) -> Seq<TaskView> {
    Seq::new(s.len(), |i: int| s[i]@)
}

/// The mathematical value of a [`TaskStore`]: the task rows in insertion
/// order, and the next id to hand out.
#[verifier::ext_equal]
pub struct StoreView {
    pub tasks: Seq<TaskView>,
    pub next_id: int,
}

/// What a cancel-previous enqueue does to one existing row: a non-Canceled
/// row of the enqueued name becomes Canceled and freshly updated; every
/// other row is untouched.
pub open spec fn cancel_applied(t: TaskView, name: Seq<char>, now: int) -> TaskView {
    if t.name == name && t.status != AdminTaskStatus::Canceled {
        TaskView { status: AdminTaskStatus::Canceled, updated_at: now, ..t }
    } else {
        t
    }
}

/// [`cancel_applied`] over every row.
pub open spec fn cancel_all(tasks: Seq<TaskView>, name: Seq<char>, now: int) -> Seq<TaskView> {
    Seq::new(tasks.len(), |i: int| cancel_applied(tasks[i], name, now))
}

/// One row with its status overwritten and its update time touched.
pub open spec fn with_status(t: TaskView, status: AdminTaskStatus, now: int) -> TaskView {
    TaskView { status, updated_at: now, ..t }
}

/// The rows with the status of the row with the given id overwritten.
pub open spec fn set_status_by_id(
    tasks: Seq<TaskView>,
    id: int,
    status: AdminTaskStatus,
    now: int,
) -> Seq<TaskView> {
    Seq::new(
        tasks.len(),
        |i: int| if tasks[i].id == id {
            with_status(tasks[i], status, now)
        } else {
            tasks[i]
        },
    )
}

/// One row with its metadata overwritten and its update time touched.
pub open spec fn with_metadata(
    t: TaskView,
    metadata: Seq<(Seq<char>, crate::metadata::MetaValueV)>,
    now: int,
) -> TaskView {
    TaskView { metadata, updated_at: now, ..t }
}

/// The rows with the metadata of the row with the given id overwritten.
pub open spec fn set_metadata_by_id(
    tasks: Seq<TaskView>,
    id: int,
    metadata: Seq<(Seq<char>, crate::metadata::MetaValueV)>,
    now: int,
) -> Seq<TaskView> {
    Seq::new(
        tasks.len(),
        |i: int| if tasks[i].id == id {
            with_metadata(tasks[i], metadata, now)
        } else {
            tasks[i]
        },
    )
}

/// The index of the first row at or past `i` that is an active task of the
/// given name.
pub open spec fn first_active_from(tasks: Seq<TaskView>, name: Seq<char>, i: int) -> Option<int>
    decreases tasks.len() - i,
{
    if i < 0 || i >= tasks.len() {
        None
    } else if tasks[i].name == name && tasks[i].status.spec_is_active() {
        Some(i)
    } else {
        first_active_from(tasks, name, i + 1)
    }
}

/// The index of the first active task of the given name, if any.
pub open spec fn first_active(tasks: Seq<TaskView>, name: Seq<char>) -> Option<int> {
    first_active_from(tasks, name, 0)
}

/// The active tasks of the given name.
pub open spec fn actives_named(tasks: Seq<TaskView>, name: Seq<char>) -> Seq<TaskView> {
    tasks.filter(|t: TaskView| t.name == name && t.status.spec_is_active())
}

/// The canceled tasks of the given name.
pub open spec fn canceled_named(tasks: Seq<TaskView>, name: Seq<char>) -> Seq<TaskView> {
    tasks.filter(|t: TaskView| t.name == name && t.status == AdminTaskStatus::Canceled)
}


/// The preview projections of the task rows, in row order.
pub open spec fn task_previews(tasks: Seq<TaskView>) -> Seq<TaskPreviewView> {
    Seq::new(tasks.len(), |i: int| preview_of(tasks[i]))
}

/// A preview inserted at its place in listing order: most recently updated
/// first, ties broken by ascending id.
pub open spec fn preview_sorted_insert(s: Seq<TaskPreviewView>, p: TaskPreviewView) -> Seq<
    TaskPreviewView,
>
    decreases s.len(),
{
    if s.len() == 0 {
        seq![p]
    } else if preview_before(p, s[0]) {
        seq![p] + s
    } else {
        seq![s[0]] + preview_sorted_insert(s.drop_first(), p)
    }
}

/// The previews brought into listing order, one insertion at a time.
pub open spec fn sort_previews(s: Seq<TaskPreviewView>) -> Seq<TaskPreviewView>
    decreases s.len(),
{
    if s.len() == 0 {
        Seq::<TaskPreviewView>::empty()
    } else {
        preview_sorted_insert(sort_previews(s.drop_last()), s.last())
    }
}

/// Whether a listing request with cursor `c` keeps preview `p`.
pub open spec fn preview_page_keep(p: TaskPreviewView, c: Option<AdminTaskCursorV>) -> bool {
    match c {
        Some(cv) => preview_after_cursor(p, cv),
        None => true,
    }
}

/// The page a task listing with cursor `c` and the given limit returns:
/// the first `limit` previews in listing order strictly after the cursor.
pub open spec fn preview_page(
    tasks: Seq<TaskView>,
    c: Option<AdminTaskCursorV>,
    limit: int,
) -> Seq<TaskPreviewView> {
    let sorted = sort_previews(task_previews(tasks));
    let kept = sorted.filter(|p: TaskPreviewView| preview_page_keep(p, c));
    if kept.len() <= limit {
        kept
    } else {
        kept.take(limit)
    }
}

/// The view of an optional listing cursor.
pub open spec fn preview_cursor_view(c: Option<AdminTaskCursor>) -> Option<AdminTaskCursorV> {
    match c {
        Some(x) => Some(x@),
        None => None,
    }
}

proof fn lemma_preview_insert_at(s: Seq<TaskPreviewView>, p: TaskPreviewView, j: int)
    requires
        0 <= j <= s.len(),
        forall|i: int| 0 <= i < j ==> !preview_before(p, #[trigger] s[i]),
        j < s.len() ==> preview_before(p, s[j]),
    ensures
        preview_sorted_insert(s, p) == s.take(j) + seq![p] + s.skip(j),
    decreases s.len(),
{
    if s.len() == 0 {
        assert(preview_sorted_insert(s, p) =~= s.take(0) + seq![p] + s.skip(0));
    } else if preview_before(p, s[0]) {
        assert(j == 0);
        assert(preview_sorted_insert(s, p) =~= s.take(0) + seq![p] + s.skip(0));
    } else {
        assert(j >= 1);
        let d = s.drop_first();
        assert(forall|i: int| 0 <= i < j - 1 ==> !preview_before(p, #[trigger] d[i]));
        lemma_preview_insert_at(d, p, j - 1);
        assert(preview_sorted_insert(s, p) =~= s.take(j) + seq![p] + s.skip(j)) by {
            assert(d.take(j - 1) =~= s.take(j).drop_first());
            assert(d.skip(j - 1) =~= s.skip(j));
            assert(seq![s[0]] + (d.take(j - 1) + seq![p] + d.skip(j - 1)) =~= s.take(j) + seq![
                p,
            ] + s.skip(j));
        }
    }
}

/// Inserts one preview at its place in listing order.
fn insert_preview_sorted(list: &mut Vec<AdminTaskPreview>, p: AdminTaskPreview)
    ensures
        preview_views(final(list)@) == preview_sorted_insert(preview_views(old(list)@), p@),
{
    let ghost s = preview_views(list@);
    let ghost pv = p@;
    let mut j: usize = 0;
    while j < list.len()
        invariant_except_break
            preview_views(list@) == s,
            pv == p@,
            0 <= j <= s.len(),
            forall|i: int| 0 <= i < j ==> !preview_before(pv, #[trigger] s[i]),
        ensures
            preview_views(list@) == s,
            pv == p@,
            0 <= j <= s.len(),
            forall|i: int| 0 <= i < j ==> !preview_before(pv, #[trigger] s[i]),
            j < s.len() ==> preview_before(pv, s[j as int]),
        decreases list.len() - j,
    {
        let q = &list[j];
        let goes_before = p.updated_at > q.updated_at || (p.updated_at == q.updated_at && p.id
            < q.id);
        proof {
            assert(q@ == s[j as int]);
            assert(goes_before == preview_before(pv, s[j as int]));
        }
        if goes_before {
            break;
        }
        j = j + 1;
    }
    list.insert(j, p);
    proof {
        lemma_preview_insert_at(s, pv, j as int);
        assert(preview_views(list@) =~= s.take(j as int) + seq![pv] + s.skip(j as int));
    }
}

/// The task store.
#[derive(Debug)]
pub struct TaskStore {
    tasks: Vec<AdminTask>,
    next_id: u128,
}

impl View for TaskStore {
    type V = StoreView;

    closed spec fn view(&self) -> StoreView {
        StoreView { tasks: task_views(self.tasks@), next_id: self.next_id as int }
    }
}

impl TaskStore {
    /// Ids are unique, and every id is below the next one to hand out.
    pub open spec fn wf(&self) -> bool {
        let v = self@;
        &&& forall|i: int| 0 <= i < v.tasks.len() ==> (#[trigger] v.tasks[i]).id < v.next_id
        &&& forall|i: int, j: int|
            0 <= i < j < v.tasks.len() ==> (#[trigger] v.tasks[i]).id != (
            #[trigger] v.tasks[j]).id
    }

    /// An empty store.
    pub fn new() -> (s: TaskStore)
        ensures
            s@.tasks == Seq::<TaskView>::empty(),
            s@.next_id == 1,
            s.wf(),
    {
        let s = TaskStore { tasks: Vec::new(), next_id: 1 };
        proof {
            assert(s@.tasks =~= Seq::<TaskView>::empty());
        }
        s
    }

    /// How many task rows the store holds.
    pub fn len(&self) -> (n: usize)
        ensures
            n == self@.tasks.len(),
    {
        self.tasks.len()
    }

    /// Creates a new task row. When `cancel_previous` is set, every
    /// non-Canceled task of the same name is marked Canceled in the same
    /// step, so that the new task is the only active one of its name. The
    /// new row's status is the caller's initial status, or Pending.
    pub fn enqueue(
        &mut self,
        initiator: AdminTaskInitiator,
        name: String,
        metadata: MetaDoc,
        status: Option<AdminTaskStatus>,
        cancel_previous: bool,
        now: i64,
    ) -> (t: AdminTask)
        requires
            old(self).wf(),
            old(self)@.next_id < u128::MAX,
        ensures
            final(self).wf(),
            t@ == (TaskView {
                id: old(self)@.next_id,
                initiator,
                name: name@,
                metadata: metadata@,
                status: match status {
                    Some(s) => s,
                    None => AdminTaskStatus::Pending,
                },
                enqueued_at: now as int,
                updated_at: now as int,
            }),
            final(self)@.tasks == (if cancel_previous {
                cancel_all(old(self)@.tasks, name@, now as int)
            } else {
                old(self)@.tasks
            }).push(t@),
            final(self)@.next_id == old(self)@.next_id + 1,
    {
        let ghost s = self@.tasks;
        if cancel_previous {
            let mut updated: Vec<AdminTask> = Vec::new();
            let mut i: usize = 0;
            while i < self.tasks.len()
                invariant
                    0 <= i <= self.tasks.len(),
                    self@.tasks == s,
                    updated@.len() == i,
                    forall|j: int|
                        0 <= j < i ==> (#[trigger] updated@[j])@ == cancel_applied(
                            s[j],
                            name@,
                            now as int,
                        ),
                decreases self.tasks.len() - i,
            {
                let t = &self.tasks[i];
                let same_name = str_eq(t.name.as_str(), name.as_str());
                let hit = same_name && !matches!(t.status, AdminTaskStatus::Canceled);
                proof {
                    assert(t@ == s[i as int]);
                }
                if hit {
                    let canceled = AdminTask {
                        id: t.id,
                        initiator: t.initiator,
                        name: t.name.clone(),
                        metadata: t.metadata.clone(),
                        status: AdminTaskStatus::Canceled,
                        enqueued_at: t.enqueued_at,
                        updated_at: now,
                    };
                    proof {
                        assert(canceled@ =~= cancel_applied(s[i as int], name@, now as int));
                    }
                    updated.push(canceled);
                } else {
                    let kept = t.clone();
                    proof {
                        assert(kept@ =~= cancel_applied(s[i as int], name@, now as int));
                    }
                    updated.push(kept);
                }
                i = i + 1;
            }
            self.tasks = updated;
            proof {
                assert(self@.tasks =~= cancel_all(s, name@, now as int));
            }
        }
        let ghost base = self@.tasks;
        let id = self.next_id;
        let new_status = match status {
            Some(st) => st,
            None => AdminTaskStatus::Pending,
        };
        let task = AdminTask {
            id,
            initiator,
            name,
            metadata,
            status: new_status,
            enqueued_at: now,
            updated_at: now,
        };
        let stored = task.clone();
        self.tasks.push(stored);
        self.next_id = id + 1;
        proof {
            assert(self@.tasks =~= base.push(task@));
        }
        task
    }

    /// The task with the given id, or `None` where no row has it.
    pub fn get_task(&self, task_id: u128) -> (r: Option<AdminTask>)
        ensures
            match r {
                Some(t) => exists|i: int|
                    0 <= i < self@.tasks.len() && (#[trigger] self@.tasks[i]).id == task_id as int
                        && t@ == self@.tasks[i],
                None => forall|i: int|
                    0 <= i < self@.tasks.len() ==> (#[trigger] self@.tasks[i]).id != task_id as int,
            },
    {
        let mut i: usize = 0;
        while i < self.tasks.len()
            invariant
                0 <= i <= self.tasks.len(),
                forall|j: int|
                    0 <= j < i ==> (#[trigger] self@.tasks[j]).id != task_id as int,
            decreases self.tasks.len() - i,
        {
            if self.tasks[i].id == task_id {
                let t = self.tasks[i].clone();
                proof {
                    let j = i as int;
                    assert(self@.tasks[j].id == task_id as int && t@ == self@.tasks[j]);
                }
                return Some(t);
            }
            i = i + 1;
        }
        None
    }

    /// The first active (Pending or InProgress) task of the given name, or
    /// `None` where no such task exists. Under this store's own writes at
    /// most one active task per name exists, so the answer is the unique
    /// active task; were an external writer to break that invariant, one of
    /// the active tasks is returned.
    pub fn get_last_active_task(&self, name: &str) -> (r: Option<AdminTask>)
        ensures
            match r {
                Some(t) => {
                    &&& first_active(self@.tasks, name@) matches Some(j)
                    &&& 0 <= j < self@.tasks.len()
                    &&& t@ == self@.tasks[j]
                },
                None => first_active(self@.tasks, name@) is None,
            },
    {
        let ghost s = self@.tasks;
        let mut i: usize = 0;
        while i < self.tasks.len()
            invariant
                0 <= i <= s.len(),
                self@.tasks == s,
                first_active(s, name@) == first_active_from(s, name@, i as int),
            decreases self.tasks.len() - i,
        {
            let t = &self.tasks[i];
            let same_name = str_eq(t.name.as_str(), name);
            let hit = same_name && t.status.is_active();
            proof {
                assert(t@ == s[i as int]);
            }
            if hit {
                let found = t.clone();
                proof {
                    assert(first_active(s, name@) == Some(i as int));
                }
                return Some(found);
            }
            i = i + 1;
        }
        None
    }

    /// Overwrites the status of the task with the given id and touches its
    /// update time; a missing id changes nothing. No transition validation
    /// happens here: the schedulers are responsible for only issuing lawful
    /// transitions.
    pub fn update_status(&mut self, task_id: u128, status: AdminTaskStatus, now: i64)
        requires
            old(self).wf(),
        ensures
            final(self).wf(),
            final(self)@.tasks == set_status_by_id(
                old(self)@.tasks,
                task_id as int,
                status,
                now as int,
            ),
            final(self)@.next_id == old(self)@.next_id,
    {
        let ghost s = self@.tasks;
        let mut updated: Vec<AdminTask> = Vec::new();
        let mut i: usize = 0;
        while i < self.tasks.len()
            invariant
                0 <= i <= self.tasks.len(),
                self@.tasks == s,
                updated@.len() == i,
                forall|j: int|
                    0 <= j < i ==> (#[trigger] updated@[j])@ == (if s[j].id == task_id as int {
                        with_status(s[j], status, now as int)
                    } else {
                        s[j]
                    }),
            decreases self.tasks.len() - i,
        {
            let t = &self.tasks[i];
            proof {
                assert(t@ == s[i as int]);
            }
            if t.id == task_id {
                let changed = AdminTask {
                    id: t.id,
                    initiator: t.initiator,
                    name: t.name.clone(),
                    metadata: t.metadata.clone(),
                    status,
                    enqueued_at: t.enqueued_at,
                    updated_at: now,
                };
                proof {
                    assert(changed@ =~= with_status(s[i as int], status, now as int));
                }
                updated.push(changed);
            } else {
                updated.push(t.clone());
            }
            i = i + 1;
        }
        self.tasks = updated;
        proof {
            assert(self@.tasks =~= set_status_by_id(s, task_id as int, status, now as int));
        }
    }

    /// Overwrites the metadata of the task with the given id and touches
    /// its update time; a missing id changes nothing.
    pub fn update_metadata(&mut self, task_id: u128, metadata: &MetaDoc, now: i64)
        requires
            old(self).wf(),
        ensures
            final(self).wf(),
            final(self)@.tasks == set_metadata_by_id(
                old(self)@.tasks,
                task_id as int,
                metadata@,
                now as int,
            ),
            final(self)@.next_id == old(self)@.next_id,
    {
        let ghost s = self@.tasks;
        let mut updated: Vec<AdminTask> = Vec::new();
        let mut i: usize = 0;
        while i < self.tasks.len()
            invariant
                0 <= i <= self.tasks.len(),
                self@.tasks == s,
                updated@.len() == i,
                forall|j: int|
                    0 <= j < i ==> (#[trigger] updated@[j])@ == (if s[j].id == task_id as int {
                        with_metadata(s[j], metadata@, now as int)
                    } else {
                        s[j]
                    }),
            decreases self.tasks.len() - i,
        {
            let t = &self.tasks[i];
            proof {
                assert(t@ == s[i as int]);
            }
            if t.id == task_id {
                let changed = AdminTask {
                    id: t.id,
                    initiator: t.initiator,
                    name: t.name.clone(),
                    metadata: metadata.clone(),
                    status: t.status,
                    enqueued_at: t.enqueued_at,
                    updated_at: now,
                };
                proof {
                    assert(changed@ =~= with_metadata(s[i as int], metadata@, now as int));
                }
                updated.push(changed);
            } else {
                updated.push(t.clone());
            }
            i = i + 1;
        }
        self.tasks = updated;
        proof {
            assert(self@.tasks =~= set_metadata_by_id(s, task_id as int, metadata@, now as int));
        }
    }
}


impl TaskStore {
    /// The operator-facing listing: previews of the task rows, most
    /// recently updated first (ties by ascending id), up to `limit` of
    /// them strictly after the cursor — the same keyset contract as the
    /// entity scans, without the metadata payloads.
    pub fn list_tasks(&self, limit: usize, cursor: &Option<AdminTaskCursor>) -> (r: Vec<
        AdminTaskPreview,
    >)
        ensures
            preview_views(r@) == preview_page(
                self@.tasks,
                preview_cursor_view(*cursor),
                limit as int,
            ),
    {
        let ghost tasks = self@.tasks;
        let mut sorted: Vec<AdminTaskPreview> = Vec::new();
        let mut i: usize = 0;
        proof {
            assert(task_previews(tasks).take(0) =~= Seq::<TaskPreviewView>::empty());
            assert(preview_views(sorted@) =~= sort_previews(task_previews(tasks).take(0)));
        }
        while i < self.tasks.len()
            invariant
                0 <= i <= tasks.len(),
                self@.tasks == tasks,
                preview_views(sorted@) == sort_previews(task_previews(tasks).take(i as int)),
            decreases self.tasks.len() - i,
        {
            let p = self.tasks[i].preview();
            proof {
                assert(p@ == preview_of(tasks[i as int]));
                assert(task_previews(tasks).take(i + 1).drop_last() =~= task_previews(
                    tasks,
                ).take(i as int));
                assert(task_previews(tasks).take(i + 1).last() == preview_of(tasks[i as int]));
            }
            insert_preview_sorted(&mut sorted, p);
            i = i + 1;
        }
        proof {
            assert(task_previews(tasks).take(tasks.len() as int) =~= task_previews(tasks));
        }
        let ghost cv = preview_cursor_view(*cursor);
        let ghost srt = sort_previews(task_previews(tasks));
        let ghost keep = |p: TaskPreviewView| preview_page_keep(p, cv);
        let mut out: Vec<AdminTaskPreview> = Vec::new();
        let mut n: usize = 0;
        proof {
            assert(srt.take(0).filter(keep) =~= Seq::<TaskPreviewView>::empty()) by {
                reveal(Seq::filter);
                assert(srt.take(0) =~= Seq::<TaskPreviewView>::empty());
            }
            assert(preview_views(out@) =~= srt.take(0).filter(keep));
        }
        while n < sorted.len() && out.len() < limit
            invariant
                0 <= n <= srt.len(),
                out@.len() <= limit,
                cv == preview_cursor_view(*cursor),
                srt == preview_views(sorted@),
                srt == sort_previews(task_previews(self@.tasks)),
                preview_views(out@) == srt.take(n as int).filter(keep),
                keep == (|p: TaskPreviewView| preview_page_keep(p, cv)),
            decreases sorted.len() - n,
        {
            let p = &sorted[n];
            proof {
                crate::paging::lemma_filter_take_step(srt, keep, n as int);
            }
            let ghost prev = out@;
            let past_cursor = p.is_after_cursor(cursor);
            proof {
                assert(srt[n as int] == p@);
                assert(past_cursor == keep(srt[n as int]));
            }
            if past_cursor {
                out.push(p.clone());
                proof {
                    assert(preview_views(out@) =~= preview_views(prev) + seq![srt[n as int]]);
                }
            } else {
                proof {
                    assert(preview_views(out@) =~= preview_views(prev) + Seq::<
                        TaskPreviewView,
                    >::empty());
                }
            }
            n = n + 1;
        }
        proof {
            let kept = srt.filter(keep);
            if n == srt.len() {
                assert(srt.take(n as int) =~= srt);
                assert(preview_views(out@) =~= preview_page(
                    self@.tasks,
                    cv,
                    limit as int,
                ));
            } else {
                assert(out@.len() == limit);
                assert(srt =~= srt.take(n as int) + srt.skip(n as int));
                Seq::filter_distributes_over_add(srt.take(n as int), srt.skip(n as int), keep);
                assert(kept == srt.take(n as int).filter(keep) + srt.skip(n as int).filter(
                    keep,
                ));
                assert(kept.len() >= limit);
                assert(preview_views(out@) =~= preview_page(
                    self@.tasks,
                    cv,
                    limit as int,
                ));
            }
        }
        out
    }
}

/// What a successful lookup means: the found index holds an active task of
/// the name, and no earlier index does.
pub proof fn lemma_first_active_from_props(tasks: Seq<TaskView>, name: Seq<char>, i0: int, j: int)
    requires
        0 <= i0,
        first_active_from(tasks, name, i0) == Some(j),
    ensures
        i0 <= j < tasks.len(),
        tasks[j].name == name,
        tasks[j].status.spec_is_active(),
        forall|i: int|
            i0 <= i < j ==> !((#[trigger] tasks[i]).name == name
                && tasks[i].status.spec_is_active()),
    decreases tasks.len() - i0,
{
    if i0 < tasks.len() && !(tasks[i0].name == name && tasks[i0].status.spec_is_active()) {
        lemma_first_active_from_props(tasks, name, i0 + 1, j);
    }
}

proof fn lemma_first_active_from_stable(
    tasks: Seq<TaskView>,
    tasks2: Seq<TaskView>,
    name: Seq<char>,
    i0: int,
    j: int,
)
    requires
        0 <= i0 <= j,
        first_active_from(tasks, name, i0) == Some(j),
        tasks2.len() == tasks.len(),
        forall|i: int| 0 <= i < tasks.len() && i != j ==> #[trigger] tasks2[i] == tasks[i],
        tasks2[j].name == tasks[j].name,
        tasks2[j].status.spec_is_active(),
    ensures
        first_active_from(tasks2, name, i0) == Some(j),
    decreases j - i0,
{
    lemma_first_active_from_props(tasks, name, i0, j);
    if i0 < j {
        lemma_first_active_from_stable(tasks, tasks2, name, i0 + 1, j);
    }
}

proof fn lemma_first_active_found_from(tasks: Seq<TaskView>, name: Seq<char>, i0: int, j: int)
    requires
        0 <= i0 <= j < tasks.len(),
        forall|i: int|
            i0 <= i < j ==> !((#[trigger] tasks[i]).name == name
                && tasks[i].status.spec_is_active()),
        tasks[j].name == name,
        tasks[j].status.spec_is_active(),
    ensures
        first_active_from(tasks, name, i0) == Some(j),
    decreases j - i0,
{
    if i0 < j {
        lemma_first_active_found_from(tasks, name, i0 + 1, j);
    }
}

/// The lookup finds exactly the index it should: the first row holding an
/// active task of the name.
pub proof fn lemma_first_active_found(tasks: Seq<TaskView>, name: Seq<char>, j: int)
    requires
        0 <= j < tasks.len(),
        forall|i: int|
            0 <= i < j ==> !((#[trigger] tasks[i]).name == name
                && tasks[i].status.spec_is_active()),
        tasks[j].name == name,
        tasks[j].status.spec_is_active(),
    ensures
        first_active(tasks, name) == Some(j),
{
    lemma_first_active_found_from(tasks, name, 0, j);
}

/// A write that keeps the found task's name and leaves it active, and
/// touches no other row, does not change which task the lookup finds.
pub proof fn lemma_first_active_stable(
    tasks: Seq<TaskView>,
    tasks2: Seq<TaskView>,
    name: Seq<char>,
    j: int,
)
    requires
        first_active(tasks, name) == Some(j),
        tasks2.len() == tasks.len(),
        forall|i: int| 0 <= i < tasks.len() && i != j ==> #[trigger] tasks2[i] == tasks[i],
        tasks2[j].name == tasks[j].name,
        tasks2[j].status.spec_is_active(),
    ensures
        first_active(tasks2, name) == Some(j),
{
    lemma_first_active_from_props(tasks, name, 0, j);
    lemma_first_active_from_stable(tasks, tasks2, name, 0, j);
}

/// After a cancel-previous enqueue of an active task, that task is the one
/// and only active task of its name, whatever the store held before: the
/// single-active-task invariant is re-established by every such enqueue.
pub proof fn lemma_cancel_enqueue_single_active(
    tasks: Seq<TaskView>,
    name: Seq<char>,
    now: int,
    nt: TaskView,
)
    requires
        nt.name == name,
        nt.status.spec_is_active(),
    ensures
        ({
            let ns = cancel_all(tasks, name, now).push(nt);
            forall|i: int|
                0 <= i < ns.len() ==> ((#[trigger] ns[i]).name == name
                    && ns[i].status.spec_is_active() <==> i == ns.len() - 1)
        }),
{
}

/// Re-triggering a job twice in quick succession — two cancel-previous
/// enqueues of one name, each creating an active task — leaves exactly one
/// active task of that name (the second) and exactly one Canceled task
/// (the first), when no task of that name existed before. At no state
/// between the two enqueues is the count of active tasks anything but one:
/// each enqueue is a single atomic step whose result the previous lemma
/// pins down.
pub proof fn lemma_reenqueue_twice_counts(
    tasks: Seq<TaskView>,
    name: Seq<char>,
    t1: TaskView,
    t2: TaskView,
    now2: int,
)
    requires
        forall|i: int| 0 <= i < tasks.len() ==> (#[trigger] tasks[i]).name != name,
        t1.name == name,
        t1.status.spec_is_active(),
        t2.name == name,
        t2.status.spec_is_active(),
    ensures
        ({
            let s1 = tasks.push(t1);
            let s2 = cancel_all(s1, name, now2).push(t2);
            &&& actives_named(s2, name) == seq![t2]
            &&& canceled_named(s2, name) == seq![cancel_applied(t1, name, now2)]
        }),
{
    let s1 = tasks.push(t1);
    let t1c = cancel_applied(t1, name, now2);
    let s2 = cancel_all(s1, name, now2).push(t2);
    assert(cancel_all(s1, name, now2) =~= cancel_all(tasks, name, now2).push(t1c));
    assert(cancel_all(tasks, name, now2) =~= tasks);
    assert(s2 =~= tasks + seq![t1c] + seq![t2]);
    let is_active = |t: TaskView| t.name == name && t.status.spec_is_active();
    let is_canceled = |t: TaskView| t.name == name && t.status == AdminTaskStatus::Canceled;
    Seq::filter_distributes_over_add(tasks + seq![t1c], seq![t2], is_active);
    Seq::filter_distributes_over_add(tasks, seq![t1c], is_active);
    crate::paging::lemma_filter_of_none(tasks, is_active);
    crate::paging::lemma_filter_singleton(t1c, is_active);
    crate::paging::lemma_filter_singleton(t2, is_active);
    assert(s2.filter(is_active) =~= seq![t2]);
    Seq::filter_distributes_over_add(tasks + seq![t1c], seq![t2], is_canceled);
    Seq::filter_distributes_over_add(tasks, seq![t1c], is_canceled);
    crate::paging::lemma_filter_of_none(tasks, is_canceled);
    crate::paging::lemma_filter_singleton(t1c, is_canceled);
    crate::paging::lemma_filter_singleton(t2, is_canceled);
    assert(s2.filter(is_canceled) =~= seq![t1c]);
}

/// Strictly ordered previews: every pair of positions in listing order.
pub open spec fn previews_ordered(s: Seq<TaskPreviewView>) -> bool {
    forall|i: int, j: int|
        0 <= i < j < s.len() ==> preview_before(#[trigger] s[i], #[trigger] s[j])
}

proof fn lemma_preview_insert_sorted(s: Seq<TaskPreviewView>, p: TaskPreviewView)
    requires
        previews_ordered(s),
        forall|i: int| 0 <= i < s.len() ==> (#[trigger] s[i]).id != p.id,
    ensures
        previews_ordered(preview_sorted_insert(s, p)),
        preview_sorted_insert(s, p).len() == s.len() + 1,
        forall|x: TaskPreviewView|
            #[trigger] preview_sorted_insert(s, p).contains(x) <==> (s.contains(x) || x == p),
    decreases s.len(),
{
    let out = preview_sorted_insert(s, p);
    if s.len() == 0 {
        assert(out =~= seq![p]);
        assert forall|x: TaskPreviewView| #[trigger] out.contains(x) implies (s.contains(x) || x
            == p) by {}
        assert(out[0] == p);
        assert(out.contains(p));
    } else if preview_before(p, s[0]) {
        assert(out =~= seq![p] + s);
        assert forall|i: int, j: int| 0 <= i < j < out.len() implies preview_before(
            #[trigger] out[i],
            #[trigger] out[j],
        ) by {
            if i == 0 {
                if j > 1 {
                    assert(preview_before(s[0], s[j - 1]));
                }
            } else {
                assert(preview_before(s[i - 1], s[j - 1]));
            }
        }
        assert forall|x: TaskPreviewView| #[trigger] out.contains(x) implies (s.contains(x) || x
            == p) by {
            let k = choose|k: int| 0 <= k < out.len() && out[k] == x;
            if k > 0 {
                assert(s[k - 1] == x);
            }
        }
        assert forall|x: TaskPreviewView| s.contains(x) || x == p implies #[trigger] out.contains(
            x,
        ) by {
            if x == p {
                assert(out[0] == x);
            } else {
                let k = choose|k: int| 0 <= k < s.len() && s[k] == x;
                assert(out[k + 1] == x);
            }
        }
    } else {
        let d = s.drop_first();
        assert(previews_ordered(d)) by {
            assert forall|i: int, j: int| 0 <= i < j < d.len() implies preview_before(
                #[trigger] d[i],
                #[trigger] d[j],
            ) by {
                assert(preview_before(s[i + 1], s[j + 1]));
            }
        }
        assert(forall|i: int| 0 <= i < d.len() ==> (#[trigger] d[i]).id != p.id) by {
            assert(forall|i: int|
                0 <= i < d.len() ==> d[i] == s[i + 1] && (#[trigger] d[i]).id == s[i + 1].id);
        }
        lemma_preview_insert_sorted(d, p);
        let sub = preview_sorted_insert(d, p);
        assert(out =~= seq![s[0]] + sub);
        assert(s[0].id != p.id);
        assert(preview_before(s[0], p));
        assert forall|i: int, j: int| 0 <= i < j < out.len() implies preview_before(
            #[trigger] out[i],
            #[trigger] out[j],
        ) by {
            if i == 0 {
                assert(sub.contains(sub[j - 1]));
                if sub[j - 1] == p {
                } else {
                    assert(d.contains(sub[j - 1]));
                    let k = choose|k: int| 0 <= k < d.len() && d[k] == sub[j - 1];
                    assert(preview_before(s[0], s[k + 1]));
                }
            } else {
                assert(preview_before(sub[i - 1], sub[j - 1]));
            }
        }
        assert forall|x: TaskPreviewView| #[trigger] out.contains(x) implies (s.contains(x) || x
            == p) by {
            let k = choose|k: int| 0 <= k < out.len() && out[k] == x;
            if k == 0 {
                assert(s[0] == x);
            } else {
                assert(sub.contains(out[k]));
                if x != p {
                    assert(d.contains(x));
                    let m = choose|m: int| 0 <= m < d.len() && d[m] == x;
                    assert(s[m + 1] == x);
                }
            }
        }
        assert forall|x: TaskPreviewView| s.contains(x) || x == p implies #[trigger] out.contains(
            x,
        ) by {
            if x == p || d.contains(x) {
                assert(sub.contains(x));
                let m = choose|m: int| 0 <= m < sub.len() && sub[m] == x;
                assert(out[m + 1] == x);
            } else {
                let k = choose|k: int| 0 <= k < s.len() && s[k] == x;
                if k == 0 {
                    assert(out[0] == x);
                } else {
                    assert(d[k - 1] == x);
                }
            }
        }
    }
}

/// The listing order is genuine: over previews with pairwise distinct ids,
/// the sorted listing is strictly ordered — most recently updated first,
/// ties by ascending id — and holds exactly the given previews.
pub proof fn lemma_sort_previews_sorted(s: Seq<TaskPreviewView>)
    requires
        forall|i: int, j: int|
            0 <= i < j < s.len() ==> (#[trigger] s[i]).id != (#[trigger] s[j]).id,
    ensures
        previews_ordered(sort_previews(s)),
        sort_previews(s).len() == s.len(),
        forall|x: TaskPreviewView| #[trigger] sort_previews(s).contains(x) <==> s.contains(x),
    decreases s.len(),
{
    if s.len() > 0 {
        let d = s.drop_last();
        let last = s.last();
        assert(forall|i: int, j: int|
            0 <= i < j < d.len() ==> (#[trigger] d[i]).id != (#[trigger] d[j]).id) by {
            assert(forall|i: int| 0 <= i < d.len() ==> d[i] == #[trigger] s[i]);
        }
        lemma_sort_previews_sorted(d);
        let sorted_d = sort_previews(d);
        assert forall|i: int| 0 <= i < sorted_d.len() implies (#[trigger] sorted_d[i]).id
            != last.id by {
            assert(sorted_d.contains(sorted_d[i]));
            assert(d.contains(sorted_d[i]));
            let k = choose|k: int| 0 <= k < d.len() && d[k] == sorted_d[i];
            assert(s[k].id != s[s.len() - 1].id);
        }
        lemma_preview_insert_sorted(sorted_d, last);
        assert forall|x: TaskPreviewView| #[trigger] sort_previews(s).contains(x) implies
            s.contains(x) by {
            if x == last {
                assert(s[s.len() - 1] == x);
            } else {
                assert(d.contains(x));
                let k = choose|k: int| 0 <= k < d.len() && d[k] == x;
                assert(s[k] == x);
            }
        }
        assert forall|x: TaskPreviewView| s.contains(x) implies #[trigger] sort_previews(
            s,
        ).contains(x) by {
            let k = choose|k: int| 0 <= k < s.len() && s[k] == x;
            if k < s.len() - 1 {
                assert(d[k] == x);
            }
        }
    }
}

} // verus!

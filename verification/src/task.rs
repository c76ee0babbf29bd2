//! Maintenance tasks: the persistent record of one unit of maintenance work,
//! its initiator, its status state machine and its checkpoint metadata.

use vstd::prelude::*;
use crate::metadata::{MetaDoc, MetaValueV};

verus! {

/// Who asked for a task: an operator, or the service itself.
#[derive(Clone, Copy, Debug, PartialEq, Eq, Structural)]
pub enum AdminTaskInitiator {
    User,
    System,
}

/// The status of a maintenance task.
///
/// Valid transitions: `Pending -> InProgress -> Completed | Failed`, and
/// `Pending | InProgress -> Canceled` when a new task of the same name
/// supersedes the old one. `Canceled`, `Completed` and `Failed` are terminal.
#[derive(Clone, Copy, Debug, PartialEq, Eq, Structural)]
pub enum AdminTaskStatus {
    Pending,
    InProgress,
    Canceled,
    Completed,
    Failed,
}

impl AdminTaskStatus {
    /// A task in an active status is still owed work.
    pub open spec fn spec_is_active(&self) -> bool {
        *self == AdminTaskStatus::Pending || *self == AdminTaskStatus::InProgress
    }

    /// No transition leaves a terminal status.
    pub open spec fn spec_is_terminal(&self) -> bool {
        !self.spec_is_active()
    }

    /// Whether the status is `Pending` or `InProgress`.
    #[verifier::when_used_as_spec(spec_is_active)]
    pub fn is_active(&self) -> (r: bool)
        ensures
            r == self.spec_is_active(),
    {
        match self {
            AdminTaskStatus::Pending => true,
            AdminTaskStatus::InProgress => true,
            _ => false,
        }
    }

    /// Whether the status is `Canceled`, `Completed` or `Failed`.
    #[verifier::when_used_as_spec(spec_is_terminal)]
    pub fn is_terminal(&self) -> (r: bool)
        ensures
            r == self.spec_is_terminal(),
    {
        !self.is_active()
    }
}

/// The transitions of the status state machine. A transition is only ever
/// issued by the schedulers (the store overwrites unconditionally); this
/// predicate says which writes are lawful steps.
pub open spec fn valid_transition(from: AdminTaskStatus, to: AdminTaskStatus) -> bool {
    ||| (from == AdminTaskStatus::Pending && to == AdminTaskStatus::InProgress)
    ||| (from == AdminTaskStatus::InProgress && to == AdminTaskStatus::Completed)
    ||| (from == AdminTaskStatus::InProgress && to == AdminTaskStatus::Failed)
    ||| (from.spec_is_active() && to == AdminTaskStatus::Canceled)
}

/// No transition leaves a terminal status.
pub proof fn lemma_terminal_statuses_are_final(from: AdminTaskStatus, to: AdminTaskStatus)
    requires
        from.spec_is_terminal(),
    ensures
        !valid_transition(from, to),
{
}

/// The mathematical value of an [`AdminTask`].
#[verifier::ext_equal]
pub struct TaskView {
    pub id: int,
    pub initiator: AdminTaskInitiator,
    pub name: Seq<char>,
    pub metadata: Seq<(Seq<char>, MetaValueV)>,
    pub status: AdminTaskStatus,
    pub enqueued_at: int,
    pub updated_at: int,
}

/// One maintenance task: a unit of work with an identity, a status and an
/// open metadata document holding its checkpoint or outcome.
#[derive(Debug)]
pub struct AdminTask {
    pub id: u128,
    pub initiator: AdminTaskInitiator,
    pub name: String,
    pub metadata: MetaDoc,
    pub status: AdminTaskStatus,
    pub enqueued_at: i64,
    pub updated_at: i64,
}

impl View for AdminTask {
    type V = TaskView;

    open spec fn view(&self) -> TaskView {
        TaskView {
            id: self.id as int,
            initiator: self.initiator,
            name: self.name@,
            metadata: self.metadata@,
            status: self.status,
            enqueued_at: self.enqueued_at as int,
            updated_at: self.updated_at as int,
        }
    }
}

impl Clone for AdminTask {
    fn clone(&self) -> (res: Self)
        ensures
            res@ == self@,
    {
        AdminTask {
            id: self.id,
            initiator: self.initiator,
            name: self.name.clone(),
            metadata: self.metadata.clone(),
            status: self.status,
            enqueued_at: self.enqueued_at,
            updated_at: self.updated_at,
        }
    }
}

/// The mathematical value of an [`AdminTaskPreview`].
#[verifier::ext_equal]
pub struct TaskPreviewView {
    pub id: int,
    pub initiator: AdminTaskInitiator,
    pub name: Seq<char>,
    pub status: AdminTaskStatus,
    pub enqueued_at: int,
    pub updated_at: int,
}

/// The projection of a task shown to operators when listing tasks: every
/// field but the metadata payload.
#[derive(Debug)]
pub struct AdminTaskPreview {
    pub id: u128,
    pub initiator: AdminTaskInitiator,
    pub name: String,
    pub status: AdminTaskStatus,
    pub enqueued_at: i64,
    pub updated_at: i64,
}

impl View for AdminTaskPreview {
    type V = TaskPreviewView;

    open spec fn view(&self) -> TaskPreviewView {
        TaskPreviewView {
            id: self.id as int,
            initiator: self.initiator,
            name: self.name@,
            status: self.status,
            enqueued_at: self.enqueued_at as int,
            updated_at: self.updated_at as int,
        }
    }
}

impl Clone for AdminTaskPreview {
    fn clone(&self) -> (res: Self)
        ensures
            res@ == self@,
    {
        AdminTaskPreview {
            id: self.id,
            initiator: self.initiator,
            name: self.name.clone(),
            status: self.status,
            enqueued_at: self.enqueued_at,
            updated_at: self.updated_at,
        }
    }
}

/// The preview of a task: what [`AdminTask`] shows without its metadata.
pub open spec fn preview_of(t: TaskView) -> TaskPreviewView {
    TaskPreviewView {
        id: t.id,
        initiator: t.initiator,
        name: t.name,
        status: t.status,
        enqueued_at: t.enqueued_at,
        updated_at: t.updated_at,
    }
}

impl AdminTask {
    /// The preview projection of the task.
    pub fn preview(&self) -> (p: AdminTaskPreview)
        ensures
            p@ == preview_of(self@),
    {
        AdminTaskPreview {
            id: self.id,
            initiator: self.initiator,
            name: self.name.clone(),
            status: self.status,
            enqueued_at: self.enqueued_at,
            updated_at: self.updated_at,
        }
    }
}

} // verus!

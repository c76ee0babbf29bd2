//! Entity records and the total orders that their streams are scanned in.
//!
//! Files are scanned newest-first: by upload time descending, then by id
//! ascending. Collections are scanned by name in lexicographic order, then by
//! id ascending. Task previews are listed by update time descending, then by
//! id ascending. Each order is strict and total over records with distinct
//! ids, which is what keyset pagination needs: every record has exactly one
//! position, so a cursor splits the stream without loss or overlap.

use vstd::prelude::*;
use crate::task::{AdminTaskPreview, TaskPreviewView};
use crate::text::{lex_lt, str_eq, str_lt};

verus! {

/// The mathematical value of a [`FileRecord`].
#[verifier::ext_equal]
pub struct FileRecordV {
    pub id: int,
    pub name: Seq<char>,
    pub size: int,
    pub mime_type: Seq<char>,
    pub uploaded_at: int,
    pub tags: Seq<Seq<char>>,
    pub is_ready: bool,
}

/// One file row of the primary store: what the scheduler reads to advance
/// its cursor (id and upload time) plus what the index needs, and the
/// readiness flag that gates both listing and the lifecycle sweep.
#[derive(Debug)]
pub struct FileRecord {
    pub id: u128,
    pub name: String,
    pub size: u64,
    pub mime_type: String,
    pub uploaded_at: i64,
    pub tags: Vec<String>,
    pub is_ready: bool,
}

impl View for FileRecord {
    type V = FileRecordV;

    open spec fn view(&self) -> FileRecordV {
        FileRecordV {
            id: self.id as int,
            name: self.name@,
            size: self.size as int,
            mime_type: self.mime_type@,
            uploaded_at: self.uploaded_at as int,
            tags: Seq::new(self.tags@.len(), |i: int| self.tags@[i]@),
            is_ready: self.is_ready,
        }
    }
}

impl Clone for FileRecord {
    fn clone(&self) -> (res: Self)
        ensures
            res@ == self@,
    {
        let mut tags: Vec<String> = Vec::new();
        let mut i: usize = 0;
        while i < self.tags.len()
            invariant
                0 <= i <= self.tags.len(),
                tags@.len() == i,
                forall|j: int| 0 <= j < i ==> tags@[j]@ == self.tags@[j]@,
            decreases self.tags.len() - i,
        {
            tags.push(self.tags[i].clone());
            i = i + 1;
        }
        let res = FileRecord {
            id: self.id,
            name: self.name.clone(),
            size: self.size,
            mime_type: self.mime_type.clone(),
            uploaded_at: self.uploaded_at,
            tags,
            is_ready: self.is_ready,
        };
        proof {
            assert(res@.tags =~= self@.tags);
            assert(res@ =~= self@);
        }
        res
    }
}

/// The mathematical value of a [`CollectionRecord`].
#[verifier::ext_equal]
pub struct CollectionRecordV {
    pub id: int,
    pub name: Seq<char>,
    pub created_at: int,
    pub tags: Seq<Seq<char>>,
}

/// One collection row of the primary store.
#[derive(Debug)]
pub struct CollectionRecord {
    pub id: u128,
    pub name: String,
    pub created_at: i64,
    pub tags: Vec<String>,
}

impl View for CollectionRecord {
    type V = CollectionRecordV;

    open spec fn view(&self) -> CollectionRecordV {
        CollectionRecordV {
            id: self.id as int,
            name: self.name@,
            created_at: self.created_at as int,
            tags: Seq::new(self.tags@.len(), |i: int| self.tags@[i]@),
        }
    }
}

impl Clone for CollectionRecord {
    fn clone(&self) -> (res: Self)
        ensures
            res@ == self@,
    {
        let mut tags: Vec<String> = Vec::new();
        let mut i: usize = 0;
        while i < self.tags.len()
            invariant
                0 <= i <= self.tags.len(),
                tags@.len() == i,
                forall|j: int| 0 <= j < i ==> tags@[j]@ == self.tags@[j]@,
            decreases self.tags.len() - i,
        {
            tags.push(self.tags[i].clone());
            i = i + 1;
        }
        let res = CollectionRecord {
            id: self.id,
            name: self.name.clone(),
            created_at: self.created_at,
            tags,
        };
        proof {
            assert(res@.tags =~= self@.tags);
            assert(res@ =~= self@);
        }
        res
    }
}

/// Whether file `a` comes strictly before file `b` in scan order:
/// newest upload first, ties broken by ascending id.
pub open spec fn file_before(a: FileRecordV, b: FileRecordV) -> bool {
    a.uploaded_at > b.uploaded_at || (a.uploaded_at == b.uploaded_at && a.id < b.id)
}

/// Whether collection `a` comes strictly before collection `b` in scan
/// order: lexicographic by name, ties broken by ascending id.
pub open spec fn collection_before(a: CollectionRecordV, b: CollectionRecordV) -> bool {
    lex_lt(a.name, b.name) || (a.name == b.name && a.id < b.id)
}

/// Whether task preview `a` comes strictly before `b` in listing order:
/// most recently updated first, ties broken by ascending id.
pub open spec fn preview_before(a: TaskPreviewView, b: TaskPreviewView) -> bool {
    a.updated_at > b.updated_at || (a.updated_at == b.updated_at && a.id < b.id)
}

/// The views of a sequence of file records.
pub open spec fn file_views(s: Seq<FileRecord>) -> Seq<FileRecordV> {
    Seq::new(s.len(), |i: int| s[i]@)
}

/// The views of a sequence of collection records.
pub open spec fn collection_views(s: Seq<CollectionRecord>) -> Seq<CollectionRecordV> {
    Seq::new(s.len(), |i: int| s[i]@)
}

/// The views of a sequence of task previews.
pub open spec fn preview_views(s: Seq<AdminTaskPreview>) -> Seq<TaskPreviewView> {
    Seq::new(s.len(), |i: int| s[i]@)
}

/// At most one of `a` before `b` and `b` before `a` holds.
pub proof fn lemma_collection_before_asym(a: CollectionRecordV, b: CollectionRecordV)
    ensures
        !(collection_before(a, b) && collection_before(b, a)),
{
    crate::text::lemma_lex_asym_from(a.name, b.name, 0);
    crate::text::lemma_lex_irrefl_from(a.name, 0);
    crate::text::lemma_lex_irrefl_from(b.name, 0);
}

/// Two collections with distinct ids are ordered one way or the other.
pub proof fn lemma_collection_before_connected(a: CollectionRecordV, b: CollectionRecordV)
    requires
        a.id != b.id,
    ensures
        collection_before(a, b) || collection_before(b, a),
{
    if !lex_lt(a.name, b.name) && !lex_lt(b.name, a.name) {
        crate::text::lemma_lex_connected_from(a.name, b.name, 0);
        assert(a.name.skip(0) =~= a.name);
        assert(b.name.skip(0) =~= b.name);
    }
}

/// The collection order is transitive.
pub proof fn lemma_collection_before_trans(
    a: CollectionRecordV,
    b: CollectionRecordV,
    c: CollectionRecordV,
)
    requires
        collection_before(a, b),
        collection_before(b, c),
    ensures
        collection_before(a, c),
{
    if lex_lt(a.name, b.name) && lex_lt(b.name, c.name) {
        crate::text::lemma_lex_trans_from(a.name, b.name, c.name, 0);
    }
}

/// The checkpoint cursor of a file scan: the position of the last file
/// already handed out.
#[derive(Clone, Copy, Debug, PartialEq, Eq, Structural)]
pub struct FileCursor {
    pub id: u128,
    pub uploaded_at: i64,
}

/// The mathematical value of a [`FileCursor`].
#[verifier::ext_equal]
pub struct FileCursorV {
    pub id: int,
    pub uploaded_at: int,
}

impl View for FileCursor {
    type V = FileCursorV;

    open spec fn view(&self) -> FileCursorV {
        FileCursorV { id: self.id as int, uploaded_at: self.uploaded_at as int }
    }
}

/// The position a file record occupies in scan order.
pub open spec fn file_cursor_of(f: FileRecordV) -> FileCursorV {
    FileCursorV { id: f.id, uploaded_at: f.uploaded_at }
}

/// Whether file `f` lies strictly after cursor position `c` in scan order.
pub open spec fn file_after_cursor(f: FileRecordV, c: FileCursorV) -> bool {
    f.uploaded_at < c.uploaded_at || (f.uploaded_at == c.uploaded_at && f.id > c.id)
}

/// The checkpoint cursor of a collection scan.
#[derive(Debug)]
pub struct CollectionCursor {
    pub id: u128,
    pub name: String,
}

/// The mathematical value of a [`CollectionCursor`].
#[verifier::ext_equal]
pub struct CollectionCursorV {
    pub id: int,
    pub name: Seq<char>,
}

impl View for CollectionCursor {
    type V = CollectionCursorV;

    open spec fn view(&self) -> CollectionCursorV {
        CollectionCursorV { id: self.id as int, name: self.name@ }
    }
}

impl Clone for CollectionCursor {
    fn clone(&self) -> (res: Self)
        ensures
            res@ == self@,
    {
        CollectionCursor { id: self.id, name: self.name.clone() }
    }
}

/// The position a collection record occupies in scan order.
pub open spec fn collection_cursor_of(c: CollectionRecordV) -> CollectionCursorV {
    CollectionCursorV { id: c.id, name: c.name }
}

/// Whether collection `r` lies strictly after cursor position `c`.
pub open spec fn collection_after_cursor(r: CollectionRecordV, c: CollectionCursorV) -> bool {
    lex_lt(c.name, r.name) || (c.name == r.name && r.id > c.id)
}

/// The cursor of a task-preview listing.
#[derive(Clone, Copy, Debug, PartialEq, Eq, Structural)]
pub struct AdminTaskCursor {
    pub id: u128,
    pub updated_at: i64,
}

/// The mathematical value of an [`AdminTaskCursor`].
#[verifier::ext_equal]
pub struct AdminTaskCursorV {
    pub id: int,
    pub updated_at: int,
}

impl View for AdminTaskCursor {
    type V = AdminTaskCursorV;

    open spec fn view(&self) -> AdminTaskCursorV {
        AdminTaskCursorV { id: self.id as int, updated_at: self.updated_at as int }
    }
}

/// Whether task preview `p` lies strictly after cursor position `c`.
pub open spec fn preview_after_cursor(p: TaskPreviewView, c: AdminTaskCursorV) -> bool {
    p.updated_at < c.updated_at || (p.updated_at == c.updated_at && p.id > c.id)
}

impl FileRecord {
    /// Whether this record lies strictly after the cursor, or after the
    /// start of the stream when the cursor is `None`.
    pub fn is_after_cursor(&self, cursor: &Option<FileCursor>) -> (r: bool)
        ensures
            r == match *cursor {
                Some(c) => file_after_cursor(self@, c@),
                None => true,
            },
    {
        match cursor {
            None => true,
            Some(c) => self.uploaded_at < c.uploaded_at || (self.uploaded_at == c.uploaded_at
                && self.id > c.id),
        }
    }
}

impl CollectionRecord {
    /// Whether this record lies strictly after the cursor, or after the
    /// start of the stream when the cursor is `None`.
    pub fn is_after_cursor(&self, cursor: &Option<CollectionCursor>) -> (r: bool)
        ensures
            r == match *cursor {
                Some(c) => collection_after_cursor(self@, c@),
                None => true,
            },
    {
        match cursor {
            None => true,
            Some(c) => {
                if str_lt(c.name.as_str(), self.name.as_str()) {
                    true
                } else {
                    str_eq(c.name.as_str(), self.name.as_str()) && self.id > c.id
                }
            },
        }
    }
}

impl AdminTaskPreview {
    /// Whether this preview lies strictly after the cursor, or after the
    /// start of the listing when the cursor is `None`.
    pub fn is_after_cursor(&self, cursor: &Option<AdminTaskCursor>) -> (r: bool)
        ensures
            r == match *cursor {
                Some(c) => preview_after_cursor(self@, c@),
                None => true,
            },
    {
        match cursor {
            None => true,
            Some(c) => self.updated_at < c.updated_at || (self.updated_at == c.updated_at
                && self.id > c.id),
        }
    }
}

} // verus!

//! Checkpoint encoding: how a scan cursor round-trips through a task's
//! metadata document. The cursor fields are decoded into a typed cursor
//! immediately after reading and re-encoded immediately before writing;
//! missing, null or otherwise unexpected fields mean "start of stream",
//! never an error, since a null cursor is a valid initial state.

use vstd::prelude::*;
use crate::metadata::{doc_lookup, MetaDoc, MetaValue, MetaValueV};
use crate::records::{CollectionCursor, CollectionCursorV, FileCursor, FileCursorV};

verus! {

/// The metadata document that records a file-scan checkpoint.
pub open spec fn file_cursor_doc(c: FileCursorV) -> Seq<(Seq<char>, MetaValueV)> {
    seq![
        ("last_file_id"@, MetaValueV::Id(c.id)),
        ("last_file_uploaded_at"@, MetaValueV::Int(c.uploaded_at)),
    ]
}

/// The file-scan cursor a metadata document holds: both fields present with
/// their expected kinds, or no cursor at all.
pub open spec fn file_cursor_of_doc(d: Seq<(Seq<char>, MetaValueV)>) -> Option<FileCursorV> {
    match (doc_lookup(d, "last_file_id"@), doc_lookup(d, "last_file_uploaded_at"@)) {
        (Some(MetaValueV::Id(id)), Some(MetaValueV::Int(ts))) => Some(
            FileCursorV { id: id, uploaded_at: ts },
        ),
        _ => None,
    }
}

/// The metadata document a re-index task starts from: both cursor fields
/// explicitly null.
pub open spec fn null_file_cursor_doc() -> Seq<(Seq<char>, MetaValueV)> {
    seq![
        ("last_file_id"@, MetaValueV::Null),
        ("last_file_uploaded_at"@, MetaValueV::Null),
    ]
}

/// Writes a file-scan cursor as a metadata document.
pub fn encode_file_cursor(c: &FileCursor) -> (d: MetaDoc)
    ensures
        d@ == file_cursor_doc(c@),
{
    let mut entries: Vec<(String, MetaValue)> = Vec::new();
    entries.push(("last_file_id".to_owned(), MetaValue::Id(c.id)));
    entries.push(("last_file_uploaded_at".to_owned(), MetaValue::Int(c.uploaded_at)));
    let d = MetaDoc::from_entries(entries);
    proof {
        assert(d@ =~= file_cursor_doc(c@));
    }
    d
}

/// The starting metadata of a file re-index task: both cursor fields null.
pub fn encode_null_file_cursor() -> (d: MetaDoc)
    ensures
        d@ == null_file_cursor_doc(),
{
    let mut entries: Vec<(String, MetaValue)> = Vec::new();
    entries.push(("last_file_id".to_owned(), MetaValue::Null));
    entries.push(("last_file_uploaded_at".to_owned(), MetaValue::Null));
    let d = MetaDoc::from_entries(entries);
    proof {
        assert(d@ =~= null_file_cursor_doc());
    }
    d
}

/// Reads the file-scan cursor out of a task's metadata.
pub fn decode_file_cursor(d: &MetaDoc) -> (r: Option<FileCursor>)
    ensures
        match r {
            Some(c) => file_cursor_of_doc(d@) == Some(c@),
            None => file_cursor_of_doc(d@) is None,
        },
{
    let id_field = d.get("last_file_id");
    let ts_field = d.get("last_file_uploaded_at");
    match (id_field, ts_field) {
        (Some(MetaValue::Id(id)), Some(MetaValue::Int(ts))) => Some(
            FileCursor { id: *id, uploaded_at: *ts },
        ),
        _ => None,
    }
}

/// A cursor written as a document is read back as the same cursor.
pub proof fn lemma_file_cursor_round_trip(c: FileCursorV)
    ensures
        file_cursor_of_doc(file_cursor_doc(c)) == Some(c),
{
    reveal_strlit("last_file_id");
    reveal_strlit("last_file_uploaded_at");
    let d = file_cursor_doc(c);
    assert("last_file_id"@ != "last_file_uploaded_at"@) by {
        assert("last_file_id"@.len() == 12);
        assert("last_file_uploaded_at"@.len() == 21);
    }
    assert(d.drop_first() =~= seq![("last_file_uploaded_at"@, MetaValueV::Int(c.uploaded_at))]);
    assert(doc_lookup(d, "last_file_id"@) == Some(MetaValueV::Id(c.id)));
    assert(doc_lookup(
        seq![("last_file_uploaded_at"@, MetaValueV::Int(c.uploaded_at))],
        "last_file_uploaded_at"@,
    ) == Some(MetaValueV::Int(c.uploaded_at)));
    assert(doc_lookup(d, "last_file_uploaded_at"@) == Some(MetaValueV::Int(c.uploaded_at)));
}

/// The null starting document holds no cursor: it means start of stream.
pub proof fn lemma_null_file_cursor_decodes_to_none()
    ensures
        file_cursor_of_doc(null_file_cursor_doc()) is None,
{
    reveal_strlit("last_file_id");
    reveal_strlit("last_file_uploaded_at");
    let d = null_file_cursor_doc();
    assert(doc_lookup(d, "last_file_id"@) == Some(MetaValueV::Null));
}

/// The metadata document that records a collection-scan checkpoint.
pub open spec fn collection_cursor_doc(c: CollectionCursorV) -> Seq<(Seq<char>, MetaValueV)> {
    seq![
        ("last_collection_id"@, MetaValueV::Id(c.id)),
        ("last_collection_name"@, MetaValueV::Str(c.name)),
    ]
}

/// The collection-scan cursor a metadata document holds.
pub open spec fn collection_cursor_of_doc(d: Seq<(Seq<char>, MetaValueV)>) -> Option<
    CollectionCursorV,
> {
    match (doc_lookup(d, "last_collection_id"@), doc_lookup(d, "last_collection_name"@)) {
        (Some(MetaValueV::Id(id)), Some(MetaValueV::Str(name))) => Some(
            CollectionCursorV { id: id, name: name },
        ),
        _ => None,
    }
}

/// The metadata document a collection re-index task starts from.
pub open spec fn null_collection_cursor_doc() -> Seq<(Seq<char>, MetaValueV)> {
    seq![
        ("last_collection_id"@, MetaValueV::Null),
        ("last_collection_name"@, MetaValueV::Null),
    ]
}

/// Writes a collection-scan cursor as a metadata document.
pub fn encode_collection_cursor(c: &CollectionCursor) -> (d: MetaDoc)
    ensures
        d@ == collection_cursor_doc(c@),
{
    let mut entries: Vec<(String, MetaValue)> = Vec::new();
    entries.push(("last_collection_id".to_owned(), MetaValue::Id(c.id)));
    entries.push(("last_collection_name".to_owned(), MetaValue::Str(c.name.clone())));
    let d = MetaDoc::from_entries(entries);
    proof {
        assert(d@ =~= collection_cursor_doc(c@));
    }
    d
}

/// The starting metadata of a collection re-index task.
pub fn encode_null_collection_cursor() -> (d: MetaDoc)
    ensures
        d@ == null_collection_cursor_doc(),
{
    let mut entries: Vec<(String, MetaValue)> = Vec::new();
    entries.push(("last_collection_id".to_owned(), MetaValue::Null));
    entries.push(("last_collection_name".to_owned(), MetaValue::Null));
    let d = MetaDoc::from_entries(entries);
    proof {
        assert(d@ =~= null_collection_cursor_doc());
    }
    d
}

/// Reads the collection-scan cursor out of a task's metadata.
pub fn decode_collection_cursor(d: &MetaDoc) -> (r: Option<CollectionCursor>)
    ensures
        match r {
            Some(c) => collection_cursor_of_doc(d@) == Some(c@),
            None => collection_cursor_of_doc(d@) is None,
        },
{
    let id_field = d.get("last_collection_id");
    let name_field = d.get("last_collection_name");
    match (id_field, name_field) {
        (Some(MetaValue::Id(id)), Some(MetaValue::Str(name))) => Some(
            CollectionCursor { id: *id, name: name.clone() },
        ),
        _ => None,
    }
}

/// A cursor written as a document is read back as the same cursor.
pub proof fn lemma_collection_cursor_round_trip(c: CollectionCursorV)
    ensures
        collection_cursor_of_doc(collection_cursor_doc(c)) == Some(c),
{
    reveal_strlit("last_collection_id");
    reveal_strlit("last_collection_name");
    let d = collection_cursor_doc(c);
    assert("last_collection_id"@ != "last_collection_name"@) by {
        assert("last_collection_id"@.len() == 18);
        assert("last_collection_name"@.len() == 20);
    }
    assert(d.drop_first() =~= seq![("last_collection_name"@, MetaValueV::Str(c.name))]);
    assert(doc_lookup(d, "last_collection_id"@) == Some(MetaValueV::Id(c.id)));
    assert(doc_lookup(
        seq![("last_collection_name"@, MetaValueV::Str(c.name))],
        "last_collection_name"@,
    ) == Some(MetaValueV::Str(c.name)));
    assert(doc_lookup(d, "last_collection_name"@) == Some(MetaValueV::Str(c.name)));
}

/// The null starting document holds no cursor: it means start of stream.
pub proof fn lemma_null_collection_cursor_decodes_to_none()
    ensures
        collection_cursor_of_doc(null_collection_cursor_doc()) is None,
{
    reveal_strlit("last_collection_id");
    reveal_strlit("last_collection_name");
    let d = null_collection_cursor_doc();
    assert(doc_lookup(d, "last_collection_id"@) == Some(MetaValueV::Null));
}

} // verus!

use file_catalog::checkpoint::{
    decode_collection_cursor, decode_file_cursor, encode_collection_cursor, encode_file_cursor,
    encode_null_collection_cursor, encode_null_file_cursor,
};
use file_catalog::metadata::{MetaDoc, MetaValue};
use file_catalog::records::{CollectionCursor, FileCursor};

#[test]
fn file_cursor_round_trips_through_metadata() {
    let cursor = FileCursor { id: 123456789, uploaded_at: -42 };
    let doc = encode_file_cursor(&cursor);
    let back = decode_file_cursor(&doc).unwrap();
    assert_eq!(back, cursor);
}

#[test]
fn collection_cursor_round_trips_through_metadata() {
    let cursor = CollectionCursor { id: 7, name: "weekend photos".to_owned() };
    let doc = encode_collection_cursor(&cursor);
    let back = decode_collection_cursor(&doc).unwrap();
    assert_eq!(back.id, 7);
    assert_eq!(back.name, "weekend photos");
}

#[test]
fn null_cursor_fields_mean_start_of_stream() {
    assert!(decode_file_cursor(&encode_null_file_cursor()).is_none());
    assert!(decode_collection_cursor(&encode_null_collection_cursor()).is_none());
}

#[test]
fn missing_cursor_fields_mean_start_of_stream() {
    assert!(decode_file_cursor(&MetaDoc::empty()).is_none());
    let half = MetaDoc::from_entries(vec![("last_file_id".to_owned(), MetaValue::Id(3))]);
    assert!(decode_file_cursor(&half).is_none());
}

#[test]
fn unexpected_cursor_field_kinds_mean_start_of_stream() {
    let odd = MetaDoc::from_entries(vec![
        ("last_file_id".to_owned(), MetaValue::Str("not an id".to_owned())),
        ("last_file_uploaded_at".to_owned(), MetaValue::Int(9)),
    ]);
    assert!(decode_file_cursor(&odd).is_none());
}

#[test]
fn decode_survives_unknown_extra_fields() {
    let doc = MetaDoc::from_entries(vec![
        ("added_by_a_future_version".to_owned(), MetaValue::Bool(true)),
        ("last_file_id".to_owned(), MetaValue::Id(11)),
        ("last_file_uploaded_at".to_owned(), MetaValue::Int(500)),
    ]);
    let cursor = decode_file_cursor(&doc).unwrap();
    assert_eq!(cursor.id, 11);
    assert_eq!(cursor.uploaded_at, 500);
}

#[test]
fn document_lookup_takes_the_first_occurrence() {
    let doc = MetaDoc::from_entries(vec![
        ("k".to_owned(), MetaValue::Int(1)),
        ("k".to_owned(), MetaValue::Int(2)),
    ]);
    assert!(matches!(doc.get("k"), Some(MetaValue::Int(1))));
    assert!(doc.get("absent").is_none());
}

#[test]
fn document_clone_preserves_every_field() {
    let doc = MetaDoc::from_entries(vec![
        ("a".to_owned(), MetaValue::Null),
        ("b".to_owned(), MetaValue::Str("text".to_owned())),
    ]);
    let copy = doc.clone();
    assert_eq!(copy.len(), 2);
    assert!(matches!(copy.get("a"), Some(MetaValue::Null)));
    assert!(matches!(copy.get("b"), Some(MetaValue::Str(s)) if s == "text"));
}

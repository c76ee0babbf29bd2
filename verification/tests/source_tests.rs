use file_catalog::records::{CollectionCursor, CollectionRecord, FileCursor, FileRecord};
use file_catalog::sources::{CollectionTable, FileTable};

fn file(id: u128, uploaded_at: i64, ready: bool) -> FileRecord {
    FileRecord {
        id,
        name: format!("file-{id}"),
        size: 10,
        mime_type: "text/plain".to_owned(),
        uploaded_at,
        tags: vec!["tag".to_owned()],
        is_ready: ready,
    }
}

fn collection(id: u128, name: &str) -> CollectionRecord {
    CollectionRecord { id, name: name.to_owned(), created_at: 0, tags: vec![] }
}

#[test]
fn file_pages_come_newest_first_with_id_tiebreak() {
    let mut t = FileTable::new();
    t.insert(file(2, 100, true));
    t.insert(file(1, 300, true));
    t.insert(file(3, 100, true));
    let page = t.list_page(10, &None);
    let ids: Vec<u128> = page.iter().map(|f| f.id).collect();
    assert_eq!(ids, vec![1, 2, 3]);
}

#[test]
fn file_pages_skip_unready_records() {
    let mut t = FileTable::new();
    t.insert(file(1, 300, true));
    t.insert(file(2, 200, false));
    t.insert(file(3, 100, true));
    let page = t.list_page(10, &None);
    let ids: Vec<u128> = page.iter().map(|f| f.id).collect();
    assert_eq!(ids, vec![1, 3]);
    assert_eq!(t.len(), 3);
}

#[test]
fn file_page_resumes_strictly_after_cursor() {
    let mut t = FileTable::new();
    for i in 1..=5u128 {
        t.insert(file(i, 1000 - i as i64, true));
    }
    let page1 = t.list_page(2, &None);
    assert_eq!(page1.len(), 2);
    let last = &page1[1];
    let cursor = FileCursor { id: last.id, uploaded_at: last.uploaded_at };
    let page2 = t.list_page(10, &Some(cursor));
    let ids: Vec<u128> = page2.iter().map(|f| f.id).collect();
    assert_eq!(ids, vec![3, 4, 5]);
}

#[test]
fn insert_before_cursor_stays_out_of_later_pages() {
    let mut t = FileTable::new();
    for i in 1..=4u128 {
        t.insert(file(i, 1000 - i as i64, true));
    }
    let page1 = t.list_page(2, &None);
    let cursor = FileCursor { id: page1[1].id, uploaded_at: page1[1].uploaded_at };
    // a brand-new upload sorts before the already-issued cursor position
    t.insert(file(10, 5000, true));
    let page2 = t.list_page(10, &Some(cursor));
    assert!(page2.iter().all(|f| f.id != 10));
    let ids: Vec<u128> = page2.iter().map(|f| f.id).collect();
    assert_eq!(ids, vec![3, 4]);
}

#[test]
fn insert_after_cursor_shows_up_in_later_pages() {
    let mut t = FileTable::new();
    for i in 1..=4u128 {
        t.insert(file(i, 1000 - i as i64, true));
    }
    let page1 = t.list_page(2, &None);
    let cursor = FileCursor { id: page1[1].id, uploaded_at: page1[1].uploaded_at };
    // an old record surfacing after the cursor position is still scanned
    t.insert(file(10, 1, true));
    let page2 = t.list_page(10, &Some(cursor));
    assert!(page2.iter().any(|f| f.id == 10));
    let ids: Vec<u128> = page2.iter().map(|f| f.id).collect();
    assert_eq!(ids, vec![3, 4, 10]);
}

#[test]
fn delete_unready_before_spares_ready_and_recent() {
    let mut t = FileTable::new();
    t.insert(file(1, 100, false));
    t.insert(file(2, 100, true));
    t.insert(file(3, 900, false));
    t.delete_unready_before(500);
    assert_eq!(t.len(), 2);
    let page = t.list_page(10, &None);
    assert_eq!(page.len(), 1);
    assert_eq!(page[0].id, 2);
}

#[test]
fn collection_pages_come_in_name_order_with_id_tiebreak() {
    let mut t = CollectionTable::new();
    t.insert(collection(3, "beta"));
    t.insert(collection(2, "alpha"));
    t.insert(collection(1, "beta"));
    let page = t.list_page(10, &None);
    let ids: Vec<u128> = page.iter().map(|c| c.id).collect();
    assert_eq!(ids, vec![2, 1, 3]);
}

#[test]
fn collection_page_resumes_after_name_cursor() {
    let mut t = CollectionTable::new();
    t.insert(collection(1, "alpha"));
    t.insert(collection(2, "beta"));
    t.insert(collection(3, "gamma"));
    let page1 = t.list_page(2, &None);
    let cursor = CollectionCursor { id: page1[1].id, name: page1[1].name.clone() };
    let page2 = t.list_page(10, &Some(cursor));
    let ids: Vec<u128> = page2.iter().map(|c| c.id).collect();
    assert_eq!(ids, vec![3]);
}

#[test]
fn empty_page_signals_end_of_stream() {
    let mut t = FileTable::new();
    t.insert(file(1, 10, true));
    let page1 = t.list_page(10, &None);
    let cursor = FileCursor { id: page1[0].id, uploaded_at: page1[0].uploaded_at };
    let page2 = t.list_page(10, &Some(cursor));
    assert!(page2.is_empty());
}

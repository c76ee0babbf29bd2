use file_catalog::checkpoint::encode_null_file_cursor;
use file_catalog::metadata::MetaDoc;
use file_catalog::records::AdminTaskCursor;
use file_catalog::store::TaskStore;
use file_catalog::task::{AdminTaskInitiator, AdminTaskStatus};

#[test]
fn enqueue_assigns_identity_and_defaults() {
    let mut store = TaskStore::new();
    let t = store.enqueue(
        AdminTaskInitiator::User,
        "reindex-files".to_owned(),
        encode_null_file_cursor(),
        None,
        false,
        100,
    );
    assert_eq!(t.id, 1);
    assert_eq!(t.status, AdminTaskStatus::Pending);
    assert_eq!(t.name, "reindex-files");
    assert_eq!(t.enqueued_at, 100);
    assert_eq!(t.updated_at, 100);
    assert_eq!(store.len(), 1);
}

#[test]
fn enqueue_with_initial_status_uses_it() {
    let mut store = TaskStore::new();
    let t = store.enqueue(
        AdminTaskInitiator::System,
        "file-gc".to_owned(),
        MetaDoc::empty(),
        Some(AdminTaskStatus::Completed),
        false,
        7,
    );
    assert_eq!(t.status, AdminTaskStatus::Completed);
    assert!(store.get_last_active_task("file-gc").is_none());
}

#[test]
fn cancel_previous_twice_leaves_one_active_one_canceled() {
    let mut store = TaskStore::new();
    let first = store.enqueue(
        AdminTaskInitiator::User,
        "reindex-files".to_owned(),
        encode_null_file_cursor(),
        None,
        true,
        10,
    );
    let second = store.enqueue(
        AdminTaskInitiator::User,
        "reindex-files".to_owned(),
        encode_null_file_cursor(),
        None,
        true,
        11,
    );
    let previews = store.list_tasks(10, &None);
    let active: Vec<_> = previews
        .iter()
        .filter(|p| p.name == "reindex-files" && p.status == AdminTaskStatus::Pending)
        .collect();
    let canceled: Vec<_> = previews
        .iter()
        .filter(|p| p.name == "reindex-files" && p.status == AdminTaskStatus::Canceled)
        .collect();
    assert_eq!(active.len(), 1);
    assert_eq!(active[0].id, second.id);
    assert_eq!(canceled.len(), 1);
    assert_eq!(canceled[0].id, first.id);
    let found = store.get_last_active_task("reindex-files").unwrap();
    assert_eq!(found.id, second.id);
}

#[test]
fn update_status_overwrites_and_touches_updated_at() {
    let mut store = TaskStore::new();
    let t = store.enqueue(
        AdminTaskInitiator::User,
        "reindex-files".to_owned(),
        MetaDoc::empty(),
        None,
        false,
        5,
    );
    store.update_status(t.id, AdminTaskStatus::InProgress, 42);
    let got = store.get_task(t.id).unwrap();
    assert_eq!(got.status, AdminTaskStatus::InProgress);
    assert_eq!(got.updated_at, 42);
    assert_eq!(got.enqueued_at, 5);
    store.update_status(t.id, AdminTaskStatus::Completed, 43);
    assert!(store.get_last_active_task("reindex-files").is_none());
}

#[test]
fn update_metadata_overwrites_only_metadata() {
    let mut store = TaskStore::new();
    let t = store.enqueue(
        AdminTaskInitiator::User,
        "reindex-files".to_owned(),
        MetaDoc::empty(),
        None,
        false,
        5,
    );
    store.update_metadata(t.id, &encode_null_file_cursor(), 9);
    let got = store.get_task(t.id).unwrap();
    assert_eq!(got.metadata.len(), 2);
    assert_eq!(got.status, AdminTaskStatus::Pending);
    assert_eq!(got.updated_at, 9);
}

#[test]
fn get_task_misses_unknown_id() {
    let store = TaskStore::new();
    assert!(store.get_task(77).is_none());
}

#[test]
fn list_tasks_orders_by_updated_at_desc_then_id_asc() {
    let mut store = TaskStore::new();
    let a = store.enqueue(
        AdminTaskInitiator::User,
        "a".to_owned(),
        MetaDoc::empty(),
        None,
        false,
        10,
    );
    let b = store.enqueue(
        AdminTaskInitiator::User,
        "b".to_owned(),
        MetaDoc::empty(),
        None,
        false,
        30,
    );
    let c = store.enqueue(
        AdminTaskInitiator::User,
        "c".to_owned(),
        MetaDoc::empty(),
        None,
        false,
        30,
    );
    let previews = store.list_tasks(10, &None);
    assert_eq!(previews.len(), 3);
    // updated at 30 come first, ties by ascending id, then updated at 10
    assert_eq!(previews[0].id, b.id);
    assert_eq!(previews[1].id, c.id);
    assert_eq!(previews[2].id, a.id);
}

#[test]
fn list_tasks_pages_without_loss_or_overlap() {
    let mut store = TaskStore::new();
    for (name, at) in [("a", 50), ("b", 40), ("c", 30), ("d", 20), ("e", 10)] {
        store.enqueue(
            AdminTaskInitiator::User,
            name.to_owned(),
            MetaDoc::empty(),
            None,
            false,
            at,
        );
    }
    let page1 = store.list_tasks(2, &None);
    assert_eq!(page1.len(), 2);
    let cursor = AdminTaskCursor { id: page1[1].id, updated_at: page1[1].updated_at };
    let page2 = store.list_tasks(10, &Some(cursor));
    assert_eq!(page2.len(), 3);
    let mut seen: Vec<u128> = page1.iter().chain(page2.iter()).map(|p| p.id).collect();
    seen.sort_unstable();
    assert_eq!(seen, vec![1, 2, 3, 4, 5]);
}

use file_catalog::dto::{
    collection_search_query_default_limit, file_search_query_default_limit, CreatingFile,
    FileSearchQueryFilter, FileSearchQueryFilterOperator, SimpleOk, UpdatingFile, UploadedPart,
    UploadedParts,
};
use file_catalog::routes::{register_root, routes};
use file_catalog::text::{str_eq, str_lt};

#[test]
fn filter_operators_spell_the_search_engine_syntax() {
    assert_eq!(FileSearchQueryFilterOperator::Eq.to_str(), "=");
    assert_eq!(FileSearchQueryFilterOperator::Neq.to_str(), "!=");
    assert_eq!(FileSearchQueryFilterOperator::Gt.to_str(), ">");
    assert_eq!(FileSearchQueryFilterOperator::Gte.to_str(), ">=");
    assert_eq!(FileSearchQueryFilterOperator::Lt.to_str(), "<");
    assert_eq!(FileSearchQueryFilterOperator::Lte.to_str(), "<=");
}

#[test]
fn search_defaults_page_at_twenty_five() {
    assert_eq!(file_search_query_default_limit(), 25);
    assert_eq!(collection_search_query_default_limit(), 25);
}

#[test]
fn dto_values_hold_their_fields() {
    let ok = SimpleOk { ok: true };
    assert!(ok.ok);
    let creating = CreatingFile {
        name: "report.pdf".to_owned(),
        size: 1024,
        mime_type: "application/pdf".to_owned(),
        tags: Some(vec!["work".to_owned()]),
    };
    assert_eq!(creating.size, 1024);
    let updating = UpdatingFile {
        name: None,
        size: Some(2048),
        mime_type: None,
        tags_for_creation: None,
        tags_for_deletion: Some(vec!["old".to_owned()]),
    };
    assert_eq!(updating.size, Some(2048));
    let parts = UploadedParts {
        parts: vec![UploadedPart { part_number: 1, e_tag: "abc".to_owned() }],
    };
    assert_eq!(parts.parts[0].part_number, 1);
    let filter = FileSearchQueryFilter::Size {
        operator: FileSearchQueryFilterOperator::Gte,
        value: 100,
    };
    assert!(matches!(filter, FileSearchQueryFilter::Size { value: 100, .. }));
}

#[test]
fn route_groups_list_their_operations() {
    let admin = routes("admin-tasks");
    assert_eq!(admin, vec![("GET", "/"), ("GET", "/<task_id>"), ("POST", "/re-index")]);
    assert_eq!(routes("files").len(), 8);
    assert_eq!(routes("collections").len(), 6);
    assert_eq!(routes("searches").len(), 2);
    assert!(routes("unknown").is_empty());
}

#[test]
fn root_mounts_every_group_once() {
    let mounts = register_root();
    assert_eq!(
        mounts,
        vec![
            ("/admin-tasks", "admin-tasks"),
            ("/collections", "collections"),
            ("/files", "files"),
            ("/searches", "searches"),
        ]
    );
}

#[test]
fn text_comparisons_follow_code_points() {
    assert!(str_eq("same", "same"));
    assert!(!str_eq("same", "sane"));
    assert!(str_lt("alpha", "beta"));
    assert!(str_lt("alp", "alpha"));
    assert!(!str_lt("alpha", "alpha"));
    // upper-case letters sort before lower-case ones by code point
    assert!(str_lt("Zoo", "apple"));
}

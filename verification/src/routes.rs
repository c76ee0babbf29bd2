//! The service's HTTP surface as plain data: which operations each route
//! group offers, and where the groups are mounted. The host program wires
//! the real handlers; this inventory is what operator tooling and the
//! mounting code agree on.

use vstd::prelude::*;
use crate::text::str_eq;

verus! {

/// The operations of one route group, as (method, path template) pairs,
/// looked up by the group's name. An unknown group has no operations.
pub open spec fn spec_routes(group: Seq<char>) -> Seq<(Seq<char>, Seq<char>)> {
    if group == "admin-tasks"@ {
        seq![("GET"@, "/"@), ("GET"@, "/<task_id>"@), ("POST"@, "/re-index"@)]
    } else if group == "collections"@ {
        seq![
            ("GET"@, "/"@),
            ("GET"@, "/<collection_id>"@),
            ("GET"@, "/<collection_id>/files"@),
            ("POST"@, "/"@),
            ("PATCH"@, "/<collection_id>"@),
            ("DELETE"@, "/<collection_id>"@),
        ]
    } else if group == "files"@ {
        seq![
            ("GET"@, "/"@),
            ("GET"@, "/<file_id>"@),
            ("POST"@, "/<file_id>/download-urls"@),
            ("POST"@, "/"@),
            ("POST"@, "/<file_id>/upload-urls"@),
            ("POST"@, "/<file_id>/upload-urls/<upload_id>/completes"@),
            ("DELETE"@, "/<file_id>/upload-urls/<upload_id>"@),
            ("PATCH"@, "/<file_id>"@),
        ]
    } else if group == "searches"@ {
        seq![("POST"@, "/files"@), ("POST"@, "/collections"@)]
    } else {
        Seq::<(Seq<char>, Seq<char>)>::empty()
    }
}

/// The operations of one route group, by the group's name.
pub fn routes(group: &str) -> (r: Vec<(&'static str, &'static str)>)
    ensures
        r@.len() == spec_routes(group@).len(),
        forall|i: int|
            0 <= i < r@.len() ==> (#[trigger] r@[i]).0@ == spec_routes(group@)[i].0
                && r@[i].1@ == spec_routes(group@)[i].1,
{
    let mut r: Vec<(&'static str, &'static str)> = Vec::new();
    if str_eq(group, "admin-tasks") {
        r.push(("GET", "/"));
        r.push(("GET", "/<task_id>"));
        r.push(("POST", "/re-index"));
    } else if str_eq(group, "collections") {
        r.push(("GET", "/"));
        r.push(("GET", "/<collection_id>"));
        r.push(("GET", "/<collection_id>/files"));
        r.push(("POST", "/"));
        r.push(("PATCH", "/<collection_id>"));
        r.push(("DELETE", "/<collection_id>"));
    } else if str_eq(group, "files") {
        r.push(("GET", "/"));
        r.push(("GET", "/<file_id>"));
        r.push(("POST", "/<file_id>/download-urls"));
        r.push(("POST", "/"));
        r.push(("POST", "/<file_id>/upload-urls"));
        r.push(("POST", "/<file_id>/upload-urls/<upload_id>/completes"));
        r.push(("DELETE", "/<file_id>/upload-urls/<upload_id>"));
        r.push(("PATCH", "/<file_id>"));
    } else if str_eq(group, "searches") {
        r.push(("POST", "/files"));
        r.push(("POST", "/collections"));
    }
    r
}

/// The mount points of the route groups at the root, in mounting order.
pub open spec fn spec_root_mounts() -> Seq<(Seq<char>, Seq<char>)> {
    seq![
        ("/admin-tasks"@, "admin-tasks"@),
        ("/collections"@, "collections"@),
        ("/files"@, "files"@),
        ("/searches"@, "searches"@),
    ]
}

/// The root mounting table: each route group under its mount point, as
/// (mount point, group name) pairs in mounting order.
pub fn register_root() -> (r: Vec<(&'static str, &'static str)>)
    ensures
        r@.len() == spec_root_mounts().len(),
        forall|i: int|
            0 <= i < r@.len() ==> (#[trigger] r@[i]).0@ == spec_root_mounts()[i].0 && r@[i].1@
                == spec_root_mounts()[i].1,
{
    let mut r: Vec<(&'static str, &'static str)> = Vec::new();
    r.push(("/admin-tasks", "admin-tasks"));
    r.push(("/collections", "collections"));
    r.push(("/files", "files"));
    r.push(("/searches", "searches"));
    r
}

} // verus!

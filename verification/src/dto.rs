//! Request and response data of the service's operator-facing API: plain
//! values handed across the boundary. Timestamps travel as Unix seconds and
//! entity identifiers as 128-bit values; the host program converts them to
//! its wire formats at the edge.

use vstd::prelude::*;

verus! {

/// A bare acknowledgement body.
#[derive(Clone, Debug, PartialEq)]
pub struct SimpleOk {
    pub ok: bool,
}

/// A request to create an operator account.
#[derive(Clone, Debug, PartialEq)]
pub struct CreatingAdmin {
    pub username: String,
    pub password: String,
    pub email: String,
}

/// A request to register a file before its content is uploaded.
#[derive(Clone, Debug, PartialEq)]
pub struct CreatingFile {
    pub name: String,
    pub size: usize,
    pub mime_type: String,
    pub tags: Option<Vec<String>>,
}

/// A partial update of a file's fields and tags.
#[derive(Clone, Debug, PartialEq)]
pub struct UpdatingFile {
    pub name: Option<String>,
    pub size: Option<usize>,
    pub mime_type: Option<String>,
    pub tags_for_creation: Option<Vec<String>>,
    pub tags_for_deletion: Option<Vec<String>>,
}

/// One part of a multipart upload: where to put which byte range.
#[derive(Clone, Debug, PartialEq)]
pub struct FileUploadUrlPart {
    pub part_number: u32,
    pub url: String,
    pub offset: u64,
    pub size: u64,
}

/// One uploaded part, as reported back by the client.
#[derive(Clone, Debug, PartialEq)]
pub struct UploadedPart {
    pub part_number: u32,
    pub e_tag: String,
}

/// The parts a client reports when completing a multipart upload.
#[derive(Clone, Debug, PartialEq)]
pub struct UploadedParts {
    pub parts: Vec<UploadedPart>,
}

/// A request to create a collection.
#[derive(Clone, Debug, PartialEq)]
pub struct CreatingCollection {
    pub name: String,
    pub tags: Vec<String>,
}

/// A partial update of a collection's name and tags.
#[derive(Clone, Debug, PartialEq)]
pub struct UpdatingCollection {
    pub name: Option<String>,
    pub tags_for_creation: Option<Vec<String>>,
    pub tags_for_deletion: Option<Vec<String>>,
}

/// A free-text search over collections.
#[derive(Clone, Debug, PartialEq)]
pub struct CollectionSearchQuery {
    pub q: String,
    pub limit: usize,
}

/// The page size a collection search uses when the caller names none.
pub fn collection_search_query_default_limit() -> (r: usize)
    ensures
        r == 25,
{
    25
}

/// A free-text search over files, with optional structured filters. The
/// outer list is a conjunction, each inner list a disjunction.
#[derive(Clone, Debug, PartialEq)]
pub struct FileSearchQuery {
    pub q: String,
    pub limit: usize,
    pub filters: Vec<Vec<FileSearchQueryFilter>>,
}

/// The page size a file search uses when the caller names none.
pub fn file_search_query_default_limit() -> (r: usize)
    ensures
        r == 25,
{
    25
}

/// One structured filter of a file search. Timestamps are Unix seconds.
#[derive(Clone, Debug, PartialEq)]
pub enum FileSearchQueryFilter {
    Size { operator: FileSearchQueryFilterOperator, value: usize },
    MimeType { value: String },
    Tag { value: String },
    TagIsEmpty,
    TagIsNotEmpty,
    UploadedAt { operator: FileSearchQueryFilterOperator, value: i64 },
}

/// A comparison operator of a structured file-search filter.
#[derive(Clone, Copy, Debug, PartialEq, Eq, Structural)]
pub enum FileSearchQueryFilterOperator {
    Eq,
    Neq,
    Gt,
    Gte,
    Lt,
    Lte,
}

impl FileSearchQueryFilterOperator {
    /// The operator as the search engine's filter syntax spells it.
    pub fn to_str(self) -> (r: &'static str)
        ensures
            r@ == match self {
                FileSearchQueryFilterOperator::Eq => "="@,
                FileSearchQueryFilterOperator::Neq => "!="@,
                FileSearchQueryFilterOperator::Gt => ">"@,
                FileSearchQueryFilterOperator::Gte => ">="@,
                FileSearchQueryFilterOperator::Lt => "<"@,
                FileSearchQueryFilterOperator::Lte => "<="@,
            },
    {
        match self {
            FileSearchQueryFilterOperator::Eq => "=",
            FileSearchQueryFilterOperator::Neq => "!=",
            FileSearchQueryFilterOperator::Gt => ">",
            FileSearchQueryFilterOperator::Gte => ">=",
            FileSearchQueryFilterOperator::Lt => "<",
            FileSearchQueryFilterOperator::Lte => "<=",
        }
    }
}

} // verus!

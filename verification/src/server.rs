//! The HTTP API's request parameters and the values its handlers derive
//! from them: paging defaults, a new tag's colour, and the names under
//! which uploaded files are stored and downloaded.
use vstd::prelude::*;
use crate::paths::{file_name, file_name_of};
use crate::text::owned;

verus! {

broadcast use vstd::string::group_string_axioms;

/// Files listed per page when the request names no limit.
pub const DEFAULT_PAGE_LIMIT: i64 = 50i64;

/// The colour a tag gets when none is given.
pub const DEFAULT_TAG_COLOR: &'static str = "#6366f1";

/// `?limit=&offset=` of a file listing.
#[derive(Debug, Clone)]
pub struct ListFilesQuery {
    pub limit: Option<i64>,
    pub offset: Option<i64>,
}

/// `?q=&limit=&offset=` of a search.
#[derive(Debug, Clone)]
pub struct SearchQuery {
    pub q: String,
    pub limit: Option<i64>,
    pub offset: Option<i64>,
}

/// The body of a request that creates a tag.
#[derive(Debug, Clone)]
pub struct CreateTagRequest {
    pub name: String,
    pub color: Option<String>,
}

/// The page a request asks for: its limit (50 when not given) and offset
/// (0 when not given).
pub open spec fn page_of(limit: Option<i64>, offset: Option<i64>) -> (i64, i64) {
    (
        match limit {
            Some(l) => l,
            None => DEFAULT_PAGE_LIMIT,
        },
        match offset {
            Some(o) => o,
            None => 0,
        },
    )
}

fn page(limit: Option<i64>, offset: Option<i64>) -> (r: (i64, i64))
    ensures
        r == page_of(limit, offset),
{
    let l = match limit {
        Some(l) => l,
        None => DEFAULT_PAGE_LIMIT,
    };
    let o = match offset {
        Some(o) => o,
        None => 0,
    };
    (l, o)
}

/// A page's limit is the requested limit whenever one is given, whatever the
/// offset, and 50 otherwise; its offset is the requested offset whenever one
/// is given, whatever the limit, and 0 otherwise.
pub proof fn lemma_page_fields(limit: Option<i64>, offset: Option<i64>, r: (i64, i64))
    requires
        r == page_of(limit, offset),
    ensures
        limit matches Some(l) ==> r.0 == l,
        limit is None ==> r.0 == 50,
        offset matches Some(o) ==> r.1 == o,
        offset is None ==> r.1 == 0,
{
}

impl ListFilesQuery {
    /// The limit and offset of the listing.
    pub fn page(&self) -> (r: (i64, i64))
        ensures
            r == page_of(self.limit, self.offset),
            self.limit matches Some(l) ==> r.0 == l,
            self.limit is None ==> r.0 == 50,
            self.offset matches Some(o) ==> r.1 == o,
            self.offset is None ==> r.1 == 0,
    {
        page(self.limit, self.offset)
    }
}

impl SearchQuery {
    /// The limit and offset of the search.
    pub fn page(&self) -> (r: (i64, i64))
        ensures
            r == page_of(self.limit, self.offset),
            self.limit matches Some(l) ==> r.0 == l,
            self.limit is None ==> r.0 == 50,
            self.offset matches Some(o) ==> r.1 == o,
            self.offset is None ==> r.1 == 0,
    {
        page(self.limit, self.offset)
    }
}

impl CreateTagRequest {
    /// The colour to give the new tag: the one requested, else `#6366f1`.
    pub fn color_or_default(&self) -> (r: String)
        ensures
            match self.color {
                Some(c) => r@ == c@,
                None => r@ == DEFAULT_TAG_COLOR@,
            },
    {
        match &self.color {
            Some(c) => c.clone(),
            None => owned(DEFAULT_TAG_COLOR),
        }
    }
}

/// The name an upload is stored under: the name the client gave, else
/// `unknown`.
pub fn upload_file_name(given: Option<&str>) -> (r: String)
    ensures
        match given {
            Some(g) => r@ == g@,
            None => r@ == "unknown"@,
        },
{
    match given {
        Some(g) => owned(g),
        None => owned("unknown"),
    }
}

/// The name a stored file is offered for download under: the file name of
/// its path, else `fallback`.
pub fn download_file_name(path: &str, fallback: &str) -> (r: String)
    ensures
        match file_name_of(path@) {
            Some(f) => r@ == f,
            None => r@ == fallback@,
        },
{
    match file_name(path) {
        Some(f) => f,
        None => owned(fallback),
    }
}

/// The `Content-Disposition` value of a download: an attachment named
/// `filename` (written between quotes as it is).
pub fn content_disposition(filename: &str) -> (r: String)
    ensures
        r@ == "attachment; filename=\""@ + filename@ + "\""@,
{
    let mut r = owned("attachment; filename=\"");
    r.append(filename);
    r.append("\"");
    r
}

/// A step of an upload or download that can fail.
#[derive(Debug, Clone, Copy, PartialEq, Eq, Structural)]
pub enum TransferStep {
    CreateDirectory,
    ReadField,
    CreateFile,
    WriteData,
    HashFile,
    SaveRecord,
    OpenFile,
}

/// What the error reply says a failed step was doing.
pub open spec fn step_text(step: TransferStep) -> Seq<char> {
    match step {
        TransferStep::CreateDirectory => "create directory"@,
        TransferStep::ReadField => "read field"@,
        TransferStep::CreateFile => "create file"@,
        TransferStep::WriteData => "write data"@,
        TransferStep::HashFile => "hash file"@,
        TransferStep::SaveRecord => "save file record"@,
        TransferStep::OpenFile => "open file"@,
    }
}

/// The error text of a failed step: `Failed to <step>: <detail>`.
pub fn failure_message(step: TransferStep, detail: &str) -> (r: String)
    ensures
        r@ == "Failed to "@ + step_text(step) + ": "@ + detail@,
{
    let mut r = owned("Failed to ");
    let what = match step {
        TransferStep::CreateDirectory => "create directory",
        TransferStep::ReadField => "read field",
        TransferStep::CreateFile => "create file",
        TransferStep::WriteData => "write data",
        TransferStep::HashFile => "hash file",
        TransferStep::SaveRecord => "save file record",
        TransferStep::OpenFile => "open file",
    };
    r.append(what);
    r.append(": ");
    r.append(detail);
    r
}

} // verus!

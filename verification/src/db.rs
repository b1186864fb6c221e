//! The file index's records, and the rules by which the index normalises
//! tag names and turns a user's search text into a full-text query.
use vstd::prelude::*;
use crate::text::{ascii_lowercase, chars_of, is_ascii_text, lowercase, unicode_lowercase};

verus! {

broadcast use vstd::string::group_string_axioms;

/// A file known to the index.
#[derive(Debug, Clone)]
pub struct FileRecord {
    pub id: i64,
    pub path: String,
    pub name: String,
    pub size: i64,
    pub hash: String,
    pub mtime: i64,
    pub created_at: String,
    pub updated_at: String,
    pub tags: Vec<String>,
}

/// A tag, with the number of files that carry it.
#[derive(Debug, Clone)]
pub struct TagRecord {
    pub id: i64,
    pub name: String,
    pub color: String,
    pub count: i64,
    pub created_at: String,
}

/// A tag assigned to a file.
#[derive(Debug, Clone)]
pub struct FileTagRecord {
    pub file_id: i64,
    pub tag_id: i64,
    pub assigned_at: String,
}

/// A tag of a file, with an optional summary.
#[derive(Debug, Clone)]
pub struct TagSummary {
    pub summary: Option<String>,
    pub tag: String,
    pub file_id: i64,
}

/// One page of search hits and the number of hits in all.
#[derive(Debug, Clone)]
pub struct SearchResult {
    pub files: Vec<FileRecord>,
    pub total: i64,
}

/// Totals over the whole index.
#[derive(Debug, Clone)]
pub struct Stats {
    pub total_files: i64,
    pub total_size: i64,
    pub total_tags: i64,
    pub untagged_files: i64,
}

/// The key under which the index stores and looks up a tag: tag names are
/// case-insensitive, so every tag operation uses the lowercase form.
pub fn tag_key(name: &str) -> (r: String)
    ensures
        r@ == unicode_lowercase(name@),
        is_ascii_text(name@) ==> r@ == ascii_lowercase(name@),
{
    lowercase(name)
}

/// `q` with every `"` doubled, the way an FTS5 string escapes quotes.
pub open spec fn fts_escaped(q: Seq<char>) -> Seq<char>
    decreases q.len(),
{
    if q.len() == 0 {
        Seq::empty()
    } else {
        fts_escaped(q.drop_last()) + if q.last() == '"' {
            seq!['"', '"']
        } else {
            seq![q.last()]
        }
    }
}

/// The full-text query the index runs for a search text: the text with its
/// quotes doubled, as a prefix match (`*` appended).
pub fn fts_prefix_query(query: &str) -> (r: String)
    ensures
        r@ == fts_escaped(query@).push('*'),
{
    let qv = chars_of(query);
    let mut r = String::new();
    let mut i: usize = 0;
    while i < qv.len()
        invariant
            i <= qv@.len(),
            r@ == fts_escaped(qv@.take(i as int)),
        decreases qv@.len() - i,
    {
        let c = qv[i];
        assert(qv@.take(i + 1).drop_last() =~= qv@.take(i as int));
        if c == '"' {
            r.push('"');
            r.push('"');
            assert(r@ =~= fts_escaped(qv@.take(i + 1)));
        } else {
            r.push(c);
            assert(r@ =~= fts_escaped(qv@.take(i + 1)));
        }
        i = i + 1;
    }
    assert(qv@.take(qv@.len() as int) =~= qv@);
    r.push('*');
    r
}

/// The number of `"` characters in `q`.
pub open spec fn quote_count(q: Seq<char>) -> int
    decreases q.len(),
{
    if q.len() == 0 {
        0
    } else {
        quote_count(q.drop_last()) + if q.last() == '"' {
            1int
        } else {
            0int
        }
    }
}

/// The escaped text is as long as the query plus one character per quote.
pub proof fn lemma_fts_escaped_len(q: Seq<char>)
    ensures
        fts_escaped(q).len() == q.len() + quote_count(q),
    decreases q.len(),
{
    if q.len() > 0 {
        lemma_fts_escaped_len(q.drop_last());
    }
}

/// A query without quotes is used as it is.
pub proof fn lemma_fts_escaped_plain(q: Seq<char>)
    requires
        forall|i: int| 0 <= i < q.len() ==> q[i] != '"',
    ensures
        fts_escaped(q) == q,
    decreases q.len(),
{
    if q.len() > 0 {
        lemma_fts_escaped_plain(q.drop_last());
        assert(fts_escaped(q) =~= q);
    }
}

} // verus!

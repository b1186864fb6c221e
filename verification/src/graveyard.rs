//! The graveyard keeps replaced versions of files: each version's bytes are
//! stored once, zstd-compressed (through `zstd`), under a path derived from
//! their SHA-256, and an entry records where the version came from, what
//! replaced it and when it expires.
use vstd::prelude::*;
use crate::digest::{hex_lower, sha256_of, sha256_hex};
use crate::paths::{join_path, joined};
use crate::text::{chars_of, string_from_range, owned};
use crate::time::{add_days, days_later, days_later_in_range, rfc3339_text, valid_timestamp, Timestamp};

verus! {

broadcast use vstd::string::group_string_axioms;

#[verifier::external_type_specification]
#[verifier::external_body]
pub struct ExIoError(std::io::Error);

/// A replaced version of a file, as recorded in the graveyard index.
#[derive(Debug, Clone)]
pub struct GraveyardEntry {
    pub id: i64,
    pub original_path: String,
    pub object_hash: String,
    pub original_hash: String,
    pub size_bytes: i64,
    pub compressed_bytes: i64,
    pub replaced_by: String,
    pub replaced_at: String,
    pub peer_node_id: Option<String>,
    pub expires_at: String,
    pub tags: Option<String>,
    pub summary: Option<String>,
}

/// Why a graveyard operation failed.
#[derive(Debug)]
pub enum GraveyardError {
    /// zstd could not compress or decompress the bytes.
    Codec(std::io::Error),
}

/// The zstd compression level the graveyard stores objects with.
pub const COMPRESSION_LEVEL: i32 = 3i32;

/// Name for what `zstd::encode_all` produces for `data` at `level`.
pub uninterp spec fn zstd_frame(data: Seq<u8>, level: i32) -> Seq<u8>;

/// Name for what `zstd::decode_all` yields for `frame`: the decompressed
/// bytes, or `None` where it reports an error.
pub uninterp spec fn zstd_content(frame: Seq<u8>) -> Option<Seq<u8>>;

/// Calls `zstd::encode_all` on an in-memory source.  The frame is named by
/// `zstd_frame`; the contract also states the round trip that the crate
/// documents (encoding yields a zstd frame, and decoding a frame gives back
/// the data that was encoded), and that the call succeeds: it reads from a
/// byte slice and writes into a `Vec`, which never fail, and zstd clamps the
/// compression level into its bounds instead of refusing it, so only a
/// failed memory allocation could make it report an error.
#[verifier::external_body]
fn zstd_encode(data: &[u8], level: i32) -> (r: Result<Vec<u8>, std::io::Error>)
    ensures
        r is Ok,
        r matches Ok(c) ==> c@ == zstd_frame(data@, level) && zstd_content(c@) == Some(data@),
{
    zstd::encode_all(data, level)
}

/// Calls `zstd::decode_all` on an in-memory source; what it yields, or that
/// it fails, is named by `zstd_content`.
#[verifier::external_body]
fn zstd_decode(frame: &[u8]) -> (r: Result<Vec<u8>, std::io::Error>)
    ensures
        match r {
            Ok(d) => zstd_content(frame@) == Some(d@),
            Err(_) => zstd_content(frame@) is None,
        },
{
    zstd::decode_all(frame)
}

/// The number of bytes UTF-8 takes for `c` (`char::len_utf8`).
pub open spec fn utf8_width(c: char) -> int {
    if (c as u32) < 0x80 {
        1
    } else if (c as u32) < 0x800 {
        2
    } else if (c as u32) < 0x10000 {
        3
    } else {
        4
    }
}

/// How many characters make up the first two bytes of `h`, or 0 when byte
/// offset 2 is not a character boundary of `h` (where slicing `[..2]` panics).
pub open spec fn shard_len(h: Seq<char>) -> int {
    if h.len() >= 1 && utf8_width(h[0]) == 2 {
        1
    } else if h.len() >= 2 && utf8_width(h[0]) == 1 && utf8_width(h[1]) == 1 {
        2
    } else {
        0
    }
}

/// The directory that holds the object named `hash`:
/// `<root>/objects/<first two bytes of hash>`.
pub open spec fn object_dir_of(root: Seq<char>, hash: Seq<char>) -> Seq<char> {
    joined(joined(root, "objects"@), hash.take(shard_len(hash)))
}

/// The file that holds the object named `hash`: `<object dir>/<hash>`.
pub open spec fn object_path_of(root: Seq<char>, hash: Seq<char>) -> Seq<char> {
    joined(object_dir_of(root, hash), hash)
}

fn char_width(c: char) -> (r: usize)
    ensures
        r == utf8_width(c),
{
    let v = c as u32;
    if v < 0x80 {
        1
    } else if v < 0x800 {
        2
    } else if v < 0x10000 {
        3
    } else {
        4
    }
}

/// The characters that make up the first two bytes of `hash`, when byte
/// offset 2 is a character boundary.
pub fn shard_of(hash: &str) -> (r: Option<String>)
    ensures
        match r {
            Some(s) => shard_len(hash@) > 0 && s@ == hash@.take(shard_len(hash@)),
            None => shard_len(hash@) == 0,
        },
{
    let hv = chars_of(hash);
    let n: usize = if hv.len() >= 1 && char_width(hv[0]) == 2 {
        1
    } else if hv.len() >= 2 && char_width(hv[0]) == 1 && char_width(hv[1]) == 1 {
        2
    } else {
        0
    };
    if n == 0 {
        None
    } else {
        let s = string_from_range(&hv, 0, n);
        assert(hv@.subrange(0, n as int) == hv@.take(n as int));
        Some(s)
    }
}

/// Where the object named `hash` is stored under the graveyard `root`.
pub fn object_dir(root: &str, hash: &str) -> (r: String)
    requires
        shard_len(hash@) > 0,
    ensures
        r@ == object_dir_of(root@, hash@),
{
    let objects = join_path(root, "objects");
    match shard_of(hash) {
        Some(shard) => join_path(objects.as_str(), shard.as_str()),
        None => objects,
    }
}

/// The file that holds the object named `hash` under the graveyard `root`.
pub fn object_path(root: &str, hash: &str) -> (r: String)
    requires
        shard_len(hash@) > 0,
    ensures
        r@ == object_path_of(root@, hash@),
{
    let dir = object_dir(root, hash);
    join_path(dir.as_str(), hash)
}

/// A stored form of a file version: its content hash and length, where it
/// goes and the compressed bytes to write there.
pub struct GraveyardObject {
    pub hash: String,
    pub size: usize,
    pub dir: String,
    pub path: String,
    pub compressed: Vec<u8>,
}

/// Every 64-character lowercase hex hash has a two-character shard.
proof fn lemma_hash_shard(content: Seq<u8>)
    requires
        hex_lower(sha256_of(content)).len() == 64,
    ensures
        shard_len(hex_lower(sha256_of(content))) == 2,
{
    let h = hex_lower(sha256_of(content));
    crate::digest::lemma_hex_lower_chars(sha256_of(content));
    assert(crate::digest::is_lower_hex_char(h[0]));
    assert(crate::digest::is_lower_hex_char(h[1]));
}

/// `o` is the stored form of `content` under the graveyard `root`.
pub open spec fn object_made_from(root: Seq<char>, content: Seq<u8>, o: GraveyardObject) -> bool {
    &&& o.hash@ == hex_lower(sha256_of(content))
    &&& o.size == content.len()
    &&& o.dir@ == object_dir_of(root, o.hash@)
    &&& o.path@ == object_path_of(root, o.hash@)
    &&& o.compressed@ == zstd_frame(content, COMPRESSION_LEVEL)
    &&& zstd_content(o.compressed@) == Some(content)
}

/// What decompressing the stored bytes `stored` returns: the content that
/// zstd decodes from them, or an error exactly when zstd reports one.
pub open spec fn decompress_outcome(stored: Seq<u8>, r: Result<Vec<u8>, GraveyardError>) -> bool {
    match r {
        Ok(d) => zstd_content(stored) == Some(d@),
        Err(_) => zstd_content(stored) is None,
    }
}

impl GraveyardObject {
    /// Hashes `content` with SHA-256 and compresses it with zstd at level 3;
    /// the object is stored at `<root>/objects/<hash[..2]>/<hash>`.
    pub fn from_content(root: &str, content: &[u8]) -> (r: Result<GraveyardObject, GraveyardError>)
        ensures
            r matches Ok(o) && object_made_from(root@, content@, o),
    {
        let hash = sha256_hex(content);
        proof {
            lemma_hash_shard(content@);
        }
        let dir = object_dir(root, hash.as_str());
        let path = object_path(root, hash.as_str());
        match zstd_encode(content, COMPRESSION_LEVEL) {
            Ok(compressed) => Ok(GraveyardObject { hash, size: content.len(), dir, path, compressed }),
            Err(e) => Err(GraveyardError::Codec(e)),
        }
    }
}

/// The bytes stored in an object file, decompressed.
pub fn decompress_object(stored: &[u8]) -> (r: Result<Vec<u8>, GraveyardError>)
    ensures
        decompress_outcome(stored@, r),
{
    match zstd_decode(stored) {
        Ok(d) => Ok(d),
        Err(e) => Err(GraveyardError::Codec(e)),
    }
}

/// Restoring an entry reads the file that burying its content wrote: the
/// object path computed from the entry's hash is the object's path, and
/// the bytes stored there decompress to the buried content.
pub proof fn lemma_entry_leads_back_to_content(
    root: Seq<char>,
    content: Seq<u8>,
    o: GraveyardObject,
    entry: GraveyardEntry,
    r: Result<Vec<u8>, GraveyardError>,
)
    requires
        object_made_from(root, content, o),
        entry.object_hash@ == o.hash@,
        decompress_outcome(o.compressed@, r),
    ensures
        object_path_of(root, entry.object_hash@) == o.path@,
        r matches Ok(d) && d@ == content,
{
}

/// Objects are content-addressed: the same content, under the same root,
/// is always stored under the same name and at the same place.
pub proof fn lemma_object_name_is_content_address(
    root: Seq<char>,
    content: Seq<u8>,
    o1: GraveyardObject,
    o2: GraveyardObject,
)
    requires
        object_made_from(root, content, o1),
        object_made_from(root, content, o2),
    ensures
        o1.hash@ == o2.hash@,
        o1.path@ == o2.path@,
        o1.compressed@ == o2.compressed@,
{
}

/// Optional text copied into an owned string.
fn owned_opt(s: Option<&str>) -> (r: Option<String>)
    ensures
        match s {
            Some(t) => r matches Some(u) && u@ == t@,
            None => r is None,
        },
{
    match s {
        Some(t) => Some(owned(t)),
        None => None,
    }
}

/// The views of optional text.
pub open spec fn opt_view(s: Option<&str>) -> Option<Seq<char>> {
    match s {
        Some(t) => Some(t@),
        None => None,
    }
}

/// The views of an optional owned string.
pub open spec fn opt_string_view(s: Option<String>) -> Option<Seq<char>> {
    match s {
        Some(t) => Some(t@),
        None => None,
    }
}

/// The entry that records burying `original_path`, whose content now lives
/// in `object`, at `now`, to be kept `ttl_days` days; its `id` is 0
/// until the index assigns one.
pub fn new_entry(
    original_path: &str,
    object: &GraveyardObject,
    original_hash: &str,
    replaced_by_hash: &str,
    peer_node_id: Option<&str>,
    tags: Option<&str>,
    summary: Option<&str>,
    now: Timestamp,
    ttl_days: i64,
) -> (e: GraveyardEntry)
    requires
        valid_timestamp(now),
        days_later_in_range(now, ttl_days as int),
        object.size <= i64::MAX,
        object.compressed@.len() <= i64::MAX,
    ensures
        e.id == 0,
        e.original_path@ == original_path@,
        e.object_hash@ == object.hash@,
        e.original_hash@ == original_hash@,
        e.size_bytes == object.size,
        e.compressed_bytes == object.compressed@.len(),
        e.replaced_by@ == replaced_by_hash@,
        e.replaced_at@ == rfc3339_text(now.secs, now.nanos),
        opt_string_view(e.peer_node_id) == opt_view(peer_node_id),
        e.expires_at@ == rfc3339_text(
            days_later(now, ttl_days as int).secs,
            days_later(now, ttl_days as int).nanos,
        ),
        opt_string_view(e.tags) == opt_view(tags),
        opt_string_view(e.summary) == opt_view(summary),
{
    let expires = add_days(now, ttl_days);
    GraveyardEntry {
        id: 0,
        original_path: owned(original_path),
        object_hash: object.hash.clone(),
        original_hash: owned(original_hash),
        size_bytes: object.size as i64,
        compressed_bytes: object.compressed.len() as i64,
        replaced_by: owned(replaced_by_hash),
        replaced_at: now.to_rfc3339(),
        peer_node_id: owned_opt(peer_node_id),
        expires_at: expires.to_rfc3339(),
        tags: owned_opt(tags),
        summary: owned_opt(summary),
    }
}

impl GraveyardEntry {
    /// Where this entry's object is stored under the graveyard `root`.
    pub fn object_path(&self, root: &str) -> (r: String)
        requires
            shard_len(self.object_hash@) > 0,
        ensures
            r@ == object_path_of(root@, self.object_hash@),
    {
        object_path(root, self.object_hash.as_str())
    }

    /// Whether the stored object hash can name an object file (its first two
    /// bytes end on a character boundary).
    pub fn has_object_name(&self) -> (r: bool)
        ensures
            r == (shard_len(self.object_hash@) > 0),
    {
        match shard_of(self.object_hash.as_str()) {
            Some(_) => true,
            None => false,
        }
    }
}

/// An expired entry as the index lists it: its id and its object's hash.
#[derive(Debug, Clone)]
pub struct ExpiredEntry {
    pub id: i64,
    pub object_hash: String,
}

/// Where a reaping run stands with the current entry.
#[derive(Debug, Clone, Copy, PartialEq, Eq, Structural)]
pub enum ReapStage {
    /// The entry is still in the index.
    Listed,
    /// The entry is deleted; the references to its object are not yet counted.
    Deleted,
    /// No entry references the object any more; it is to be removed.
    Orphaned,
}

/// The next thing a reaping run asks of the index and the file system.
#[derive(Debug, Clone)]
pub enum ReapAction {
    /// Delete the index entry with this id.
    DeleteEntry(i64),
    /// Count the index entries that still reference this object hash.
    CountReferences(String),
    /// Remove this object file, if it exists.
    RemoveObject(String),
    /// The object hash cannot name a file (slicing its first two bytes fails).
    BadObjectName(String),
    /// All expired entries are reaped; this many were deleted.
    Finished(usize),
}

/// What the index or the file system answered.
#[derive(Debug, Clone, Copy, PartialEq, Eq, Structural)]
pub enum ReapEvent {
    /// The requested deletion or removal was done.
    Done,
    /// This many entries still reference the object.
    References(i64),
}

/// Where a run goes from entry `next` at `stage` on `event`: a deletion
/// moves on to counting references; a count of zero marks the object for
/// removal, any other count (or a done removal) finishes the entry.  An
/// answer that does not fit the stage changes nothing.
pub open spec fn reap_step(next: int, stage: ReapStage, event: ReapEvent) -> (int, ReapStage) {
    match (stage, event) {
        (ReapStage::Listed, ReapEvent::Done) => (next, ReapStage::Deleted),
        (ReapStage::Deleted, ReapEvent::References(n)) => if n == 0 {
            (next, ReapStage::Orphaned)
        } else {
            (next + 1, ReapStage::Listed)
        },
        (ReapStage::Orphaned, ReapEvent::Done) => (next + 1, ReapStage::Listed),
        _ => (next, stage),
    }
}

/// The action a run asks for with `next` entries of `expired` done and the
/// current one at `stage`: delete the entry, count the references to its
/// object, remove the object (or report a hash that cannot name a file),
/// and once all entries are done, report how many were deleted.
pub open spec fn reap_action_fits(
    root: Seq<char>,
    expired: Seq<ExpiredEntry>,
    next: int,
    stage: ReapStage,
    a: ReapAction,
) -> bool {
    if next >= expired.len() {
        (a matches ReapAction::Finished(n) && n == expired.len())
    } else {
        let e = expired[next];
        match stage {
            ReapStage::Listed => (a matches ReapAction::DeleteEntry(id) && id == e.id),
            ReapStage::Deleted => (a matches ReapAction::CountReferences(h) && h@ == e.object_hash@),
            ReapStage::Orphaned => if shard_len(e.object_hash@) > 0 {
                (a matches ReapAction::RemoveObject(p) && p@ == object_path_of(root, e.object_hash@))
            } else {
                (a matches ReapAction::BadObjectName(h) && h@ == e.object_hash@)
            },
        }
    }
}

/// A run that reaps a list of expired entries one by one: each entry is
/// deleted, then the entries still referencing its object are counted, and
/// the object file is removed when none is left.  Every entry done with has
/// been deleted, so the count of deleted entries is the count done with.
pub struct Reaper {
    root: String,
    expired: Vec<ExpiredEntry>,
    next: usize,
    stage: ReapStage,
}

impl Reaper {
    /// At most all entries are done with, and a run that is done with all
    /// of them is at no stage of an entry.
    #[verifier::type_invariant]
    spec fn in_bounds(self) -> bool {
        &&& self.next <= self.expired@.len()
        &&& self.next == self.expired@.len() ==> self.stage == ReapStage::Listed
    }

    pub closed spec fn spec_root(&self) -> Seq<char> {
        self.root@
    }

    pub closed spec fn spec_expired(&self) -> Seq<ExpiredEntry> {
        self.expired@
    }

    /// How many entries are done with.
    pub closed spec fn spec_next(&self) -> int {
        self.next as int
    }

    pub closed spec fn spec_stage(&self) -> ReapStage {
        self.stage
    }

    /// A run over `expired`, for the graveyard under `root`.
    pub fn new(root: String, expired: Vec<ExpiredEntry>) -> (r: Reaper)
        ensures
            r.spec_root() == root@,
            r.spec_expired() == expired@,
            r.spec_next() == 0,
            r.spec_stage() == ReapStage::Listed,
    {
        Reaper { root, expired, next: 0, stage: ReapStage::Listed }
    }

    /// What the run needs done next.
    pub fn next_action(&self) -> (a: ReapAction)
        ensures
            0 <= self.spec_next() <= self.spec_expired().len(),
            reap_action_fits(self.spec_root(), self.spec_expired(), self.spec_next(), self.spec_stage(), a),
    {
        proof {
            use_type_invariant(self);
        }
        if self.next == self.expired.len() {
            return ReapAction::Finished(self.next);
        }
        let e = &self.expired[self.next];
        match self.stage {
            ReapStage::Listed => ReapAction::DeleteEntry(e.id),
            ReapStage::Deleted => ReapAction::CountReferences(e.object_hash.clone()),
            ReapStage::Orphaned => {
                match shard_of(e.object_hash.as_str()) {
                    Some(_) => ReapAction::RemoveObject(
                        object_path(self.root.as_str(), e.object_hash.as_str()),
                    ),
                    None => ReapAction::BadObjectName(e.object_hash.clone()),
                }
            },
        }
    }

    /// Takes in the answer to the last action (see `reap_step`).
    pub fn on_event(&mut self, event: ReapEvent)
        ensures
            final(self).spec_root() == old(self).spec_root(),
            final(self).spec_expired() == old(self).spec_expired(),
            old(self).spec_next() < old(self).spec_expired().len() ==> (final(self).spec_next(),
                final(self).spec_stage()) == reap_step(
                old(self).spec_next(),
                old(self).spec_stage(),
                event,
            ),
            old(self).spec_next() >= old(self).spec_expired().len() ==> final(self).spec_next()
                == old(self).spec_next() && final(self).spec_stage() == old(self).spec_stage(),
    {
        proof {
            use_type_invariant(&*self);
        }
        if self.next == self.expired.len() {
            return;
        }
        match (self.stage, event) {
            (ReapStage::Listed, ReapEvent::Done) => {
                self.stage = ReapStage::Deleted;
            },
            (ReapStage::Deleted, ReapEvent::References(n)) => {
                if n == 0 {
                    self.stage = ReapStage::Orphaned;
                } else {
                    self.stage = ReapStage::Listed;
                    self.next = self.next + 1;
                }
            },
            (ReapStage::Orphaned, ReapEvent::Done) => {
                self.stage = ReapStage::Listed;
                self.next = self.next + 1;
            },
            _ => {},
        }
    }
}

/// An object is marked for removal only right after the count of entries
/// still referencing it came back as zero.
pub proof fn lemma_removal_only_when_unreferenced(next: int, stage: ReapStage, event: ReapEvent)
    requires
        stage != ReapStage::Orphaned,
        reap_step(next, stage, event).1 == ReapStage::Orphaned,
    ensures
        stage == ReapStage::Deleted,
        event == ReapEvent::References(0),
        reap_step(next, stage, event).0 == next,
{
}

} // verus!

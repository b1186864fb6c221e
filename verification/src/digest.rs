//! Content digests: SHA-256 and MD5 (through `sha2` and `md-5`) and their
//! lowercase hexadecimal text (through `hex`).
use vstd::prelude::*;

verus! {

/// The lowercase hexadecimal digit for a value below 16.
pub open spec fn hex_digit(n: int) -> char {
    if n < 10 {
        ('0' as int + n) as char
    } else {
        ('a' as int + (n - 10)) as char
    }
}

/// Lowercase hexadecimal text of a byte sequence: two digits per byte,
/// the high nibble first.
pub open spec fn hex_lower(b: Seq<u8>) -> Seq<char> {
    Seq::new(
        2 * b.len(),
        |i: int|
            if i % 2 == 0 {
                hex_digit(b[i / 2] as int / 16)
            } else {
                hex_digit(b[i / 2] as int % 16)
            },
    )
}

/// `c` is one of `0-9`, `a-f`.
pub open spec fn is_lower_hex_char(c: char) -> bool {
    ('0' <= c && c <= '9') || ('a' <= c && c <= 'f')
}

/// Every character of `hex_lower(b)` is a lowercase hex digit.
pub proof fn lemma_hex_lower_chars(b: Seq<u8>)
    ensures
        hex_lower(b).len() == 2 * b.len(),
        forall|i: int| 0 <= i < hex_lower(b).len() ==> is_lower_hex_char(#[trigger] hex_lower(b)[i]),
{
    assert forall|i: int| 0 <= i < hex_lower(b).len() implies is_lower_hex_char(
        #[trigger] hex_lower(b)[i],
    ) by {
        let byte = b[i / 2] as int;
        assert(0 <= byte / 16 < 16);
        assert(0 <= byte % 16 < 16);
    }
}

/// Name for what `Sha256` (from `sha2`) computes over a byte sequence.
pub uninterp spec fn sha256_of(data: Seq<u8>) -> Seq<u8>;

/// Name for what `Md5` (from `md-5`) computes over a byte sequence.
pub uninterp spec fn md5_of(data: Seq<u8>) -> Seq<u8>;

/// Calls `hex::encode`, which writes each byte as two lowercase hex digits,
/// high nibble first (table `0123456789abcdef`).
#[verifier::external_body]
fn hex_encode(data: &[u8]) -> (r: String)
    ensures
        r@ == hex_lower(data@),
{
    hex::encode(data)
}

/// Feeds `data` to `sha2::Sha256` and returns the finalized digest; the
/// digest is named by `sha256_of` and is 32 bytes long (the output size of
/// SHA-256).
#[verifier::external_body]
fn sha256_digest(data: &[u8]) -> (r: Vec<u8>)
    ensures
        r@ == sha256_of(data@),
        r@.len() == 32,
{
    let mut hasher = <sha2::Sha256 as sha2::Digest>::new();
    sha2::Digest::update(&mut hasher, data);
    sha2::Digest::finalize(hasher).to_vec()
}

/// Feeds `data` to `md5::Md5` (crate `md-5`) and returns the finalized
/// digest; the digest is named by `md5_of` and is 16 bytes long.
#[verifier::external_body]
fn md5_digest(data: &[u8]) -> (r: Vec<u8>)
    ensures
        r@ == md5_of(data@),
        r@.len() == 16,
{
    let mut hasher = <md5::Md5 as md5::Digest>::new();
    md5::Digest::update(&mut hasher, data);
    md5::Digest::finalize(hasher).to_vec()
}

/// Lowercase hexadecimal text of `data`.
pub fn to_hex(data: &[u8]) -> (r: String)
    ensures
        r@ == hex_lower(data@),
{
    hex_encode(data)
}

/// The SHA-256 digest of `content` as 64 lowercase hex digits.
pub fn sha256_hex(content: &[u8]) -> (r: String)
    ensures
        r@ == hex_lower(sha256_of(content@)),
        r@.len() == 64,
{
    let d = sha256_digest(content);
    hex_encode(d.as_slice())
}

/// The MD5 digest of `content` as 32 lowercase hex digits.
pub fn md5_hex(content: &[u8]) -> (r: String)
    ensures
        r@ == hex_lower(md5_of(content@)),
        r@.len() == 32,
{
    let d = md5_digest(content);
    hex_encode(d.as_slice())
}

} // verus!

//! Fresh random bytes (through `rand`'s `OsRng`) and version-4 UUIDs built
//! from them (through `uuid`).
use vstd::prelude::*;
use crate::digest::{hex_lower, is_lower_hex_char, lemma_hex_lower_chars};

verus! {

#[verifier::external_type_specification]
#[verifier::external_body]
pub struct ExRandError(rand::Error);

/// Calls `rand::rngs::OsRng.try_fill_bytes` on a buffer of `n` zero bytes.
/// The bytes are random; the contract states only that a filled buffer
/// keeps its length.  The operating system's random source may fail, and
/// the call then reports its error (it does not panic).
#[verifier::external_body]
pub(crate) fn random_bytes(n: usize) -> (r: Result<Vec<u8>, rand::Error>)
    ensures
        r matches Ok(v) ==> v@.len() == n,
{
    let mut bytes = vec![0u8; n];
    match rand::RngCore::try_fill_bytes(&mut rand::rngs::OsRng, &mut bytes) {
        Ok(()) => Ok(bytes),
        Err(e) => Err(e),
    }
}

/// The text of a version-4 UUID as `Uuid`'s `Display` writes it: 36
/// characters in groups 8-4-4-4-12 of lowercase hex digits separated by
/// `-`, with the version digit `4` and a variant digit of `8`, `9`, `a` or `b`.
pub open spec fn is_uuid_v4_text(s: Seq<char>) -> bool {
    &&& s.len() == 36
    &&& forall|i: int|
        0 <= i < 36 ==> if i == 8 || i == 13 || i == 18 || i == 23 {
            #[trigger] s[i] == '-'
        } else {
            is_lower_hex_char(s[i])
        }
    &&& s[14] == '4'
    &&& (s[19] == '8' || s[19] == '9' || s[19] == 'a' || s[19] == 'b')
}

/// The 16 bytes of a random UUID with the version (4) and variant (RFC 4122)
/// bits set: the high nibble of byte 6 becomes 4, the two high bits of
/// byte 8 become `10`.
pub open spec fn v4_bytes(b: Seq<u8>) -> Seq<u8> {
    b.update(6, (b[6] & 0x0fu8) | 0x40u8).update(8, (b[8] & 0x3fu8) | 0x80u8)
}

/// The hyphenated lowercase text of 16 UUID bytes: hex groups of 4, 2, 2,
/// 2 and 6 bytes separated by `-`.
pub open spec fn uuid_text(b: Seq<u8>) -> Seq<char> {
    hex_lower(b.subrange(0, 4)) + seq!['-'] + hex_lower(b.subrange(4, 6)) + seq!['-']
        + hex_lower(b.subrange(6, 8)) + seq!['-'] + hex_lower(b.subrange(8, 10)) + seq!['-']
        + hex_lower(b.subrange(10, 16))
}

/// Calls `uuid::Builder::from_random_bytes(bytes).into_uuid()` and formats
/// the UUID with `to_string`.  As the crate documents, the builder only
/// sets the version and variant bits of the given bytes, and `Display`
/// writes the hyphenated lowercase form.
#[verifier::external_body]
fn uuid_from_random_bytes(bytes: [u8; 16]) -> (r: String)
    ensures
        r@ == uuid_text(v4_bytes(bytes@)),
{
    uuid::Builder::from_random_bytes(bytes).into_uuid().to_string()
}

proof fn lemma_uuid_text_shape(b: Seq<u8>)
    requires
        b.len() == 16,
        b[6] / 16 == 4,
        8 <= b[8] / 16 <= 11,
    ensures
        is_uuid_v4_text(uuid_text(b)),
{
    let g0 = hex_lower(b.subrange(0, 4));
    let g1 = hex_lower(b.subrange(4, 6));
    let g2 = hex_lower(b.subrange(6, 8));
    let g3 = hex_lower(b.subrange(8, 10));
    let g4 = hex_lower(b.subrange(10, 16));
    lemma_hex_lower_chars(b.subrange(0, 4));
    lemma_hex_lower_chars(b.subrange(4, 6));
    lemma_hex_lower_chars(b.subrange(6, 8));
    lemma_hex_lower_chars(b.subrange(8, 10));
    lemma_hex_lower_chars(b.subrange(10, 16));
    let s = uuid_text(b);
    assert(s =~= g0 + seq!['-'] + g1 + seq!['-'] + g2 + seq!['-'] + g3 + seq!['-'] + g4);
    assert(s.len() == 36);
    assert forall|i: int|
        0 <= i < 36 implies if i == 8 || i == 13 || i == 18 || i == 23 {
            #[trigger] s[i] == '-'
        } else {
            is_lower_hex_char(s[i])
        } by {
        if i < 8 {
            assert(s[i] == g0[i]);
        } else if i == 8 {
        } else if i < 13 {
            assert(s[i] == g1[i - 9]);
        } else if i == 13 {
        } else if i < 18 {
            assert(s[i] == g2[i - 14]);
        } else if i == 18 {
        } else if i < 23 {
            assert(s[i] == g3[i - 19]);
        } else if i == 23 {
        } else {
            assert(s[i] == g4[i - 24]);
        }
    }
    assert(s[14] == g2[0]);
    assert(g2[0] == crate::digest::hex_digit(b[6] as int / 16));
    assert(s[19] == g3[0]);
    assert(g3[0] == crate::digest::hex_digit(b[8] as int / 16));
}

/// The version-4 UUID made from 16 random bytes, as text.
pub fn uuid_from_random(bytes: [u8; 16]) -> (r: String)
    ensures
        r@ == uuid_text(v4_bytes(bytes@)),
        is_uuid_v4_text(r@),
{
    let r = uuid_from_random_bytes(bytes);
    proof {
        let b = bytes@;
        let x6 = b[6];
        let x8 = b[8];
        assert(((x6 & 0x0fu8) | 0x40u8) / 16 == 4) by (bit_vector);
        assert(8 <= ((x8 & 0x3fu8) | 0x80u8) / 16 <= 11) by (bit_vector);
        lemma_uuid_text_shape(v4_bytes(b));
    }
    r
}

/// A fresh random version-4 UUID as text, or `None` when the operating
/// system's random source fails.
pub fn new_uuid() -> (r: Option<String>)
    ensures
        r matches Some(s) ==> is_uuid_v4_text(s@),
{
    match random_bytes(16) {
        Ok(v) => {
            let mut bytes = [0u8; 16];
            let mut i: usize = 0;
            while i < 16
                invariant
                    v@.len() == 16,
                    i <= 16,
                decreases 16 - i,
            {
                bytes[i] = v[i];
                i = i + 1;
            }
            Some(uuid_from_random(bytes))
        },
        Err(_) => None,
    }
}

} // verus!

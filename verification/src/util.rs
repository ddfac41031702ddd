//! Combination of component UUIDs, on the 16 bytes of each UUID

use vstd::prelude::*;

verus! {

/// The bytes of a custom (version 8, RFC 4122 variant) UUID built from the given bytes:
/// the same bytes, but for the version nibble in byte 6 and the variant bits in byte 8
pub open spec fn custom_uuid_bytes(bytes: Seq<u8>) -> Seq<u8> {
    bytes.update(6, (bytes[6] & 0x0f) | 0x80).update(8, (bytes[8] & 0x3f) | 0x80)
}

/// The bytes of the UUID that `uuid::Builder::from_custom_bytes` builds from the bytes: the
/// version nibble of byte 6 set to 8 and the top bits of byte 8 set to the RFC 4122 variant
#[verifier::external_body]
fn uuid_from_custom_bytes(bytes: [u8; 16]) -> (r: [u8; 16])
    ensures
        r@ == custom_uuid_bytes(bytes@),
{
    uuid::Builder::from_custom_bytes(bytes).into_uuid().into_bytes()
}

/// The byte-wise wrapping products of the two UUIDs, made into a custom UUID
pub open spec fn combined_uuid_bytes(a: Seq<u8>, b: Seq<u8>) -> Seq<u8> {
    custom_uuid_bytes(Seq::new(16, |i: int| vstd::wrapping::u8_specs::wrapping_mul(a[i], b[i])))
}

/// Combines two UUIDs into one: the byte-wise wrapping product of their bytes, made into a
/// custom UUID. The result is never nil
pub fn combine_uuid(a: [u8; 16], b: [u8; 16]) -> (r: [u8; 16])
    ensures
        r@ == combined_uuid_bytes(a@, b@),
        r@[8] & 0x80 != 0,
{
    let bytes: [u8; 16] = [
        a[0].wrapping_mul(b[0]),
        a[1].wrapping_mul(b[1]),
        a[2].wrapping_mul(b[2]),
        a[3].wrapping_mul(b[3]),
        a[4].wrapping_mul(b[4]),
        a[5].wrapping_mul(b[5]),
        a[6].wrapping_mul(b[6]),
        a[7].wrapping_mul(b[7]),
        a[8].wrapping_mul(b[8]),
        a[9].wrapping_mul(b[9]),
        a[10].wrapping_mul(b[10]),
        a[11].wrapping_mul(b[11]),
        a[12].wrapping_mul(b[12]),
        a[13].wrapping_mul(b[13]),
        a[14].wrapping_mul(b[14]),
        a[15].wrapping_mul(b[15]),
    ];
    assert(bytes@ =~= Seq::new(16, |i: int| vstd::wrapping::u8_specs::wrapping_mul(a@[i], b@[i])));
    let r = uuid_from_custom_bytes(bytes);
    let v = r[8];
    let x = bytes[8];
    assert(v == (x & 0x3f) | 0x80);
    assert(((x & 0x3f) | 0x80) & 0x80 != 0) by (bit_vector);
    r
}

/// A combined UUID is never nil: its byte 8 carries the variant bit
pub proof fn lemma_combined_uuid_not_nil(a: Seq<u8>, b: Seq<u8>)
    requires
        a.len() == 16,
        b.len() == 16,
    ensures
        combined_uuid_bytes(a, b)[8] != 0,
{
    let m = vstd::wrapping::u8_specs::wrapping_mul(a[8], b[8]);
    assert(((m & 0x3f) | 0x80) != 0) by (bit_vector);
}

} // verus!

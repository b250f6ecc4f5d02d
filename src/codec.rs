//! Binary form of a feature vector, as stored in the table's blob column.
use vstd::prelude::*;

verus! {

/// The unsigned integer that eight bytes of `s`, starting at `k`, spell in
/// little-endian order.
pub open spec fn le_u64_at(s: Seq<u8>, k: int) -> int {
    s[k] as int + 0x100 * s[k + 1] as int + 0x1_0000 * s[k + 2] as int + 0x100_0000 * s[k
        + 3] as int + 0x1_0000_0000 * s[k + 4] as int + 0x100_0000_0000 * s[k + 5] as int
        + 0x1_0000_0000_0000 * s[k + 6] as int + 0x100_0000_0000_0000 * s[k + 7] as int
}

/// `b` is the encoding of `v`: an 8-byte length, then each element in 8 bytes,
/// all little-endian.
pub open spec fn is_encoding_of(b: Seq<u8>, v: Seq<u64>) -> bool {
    &&& b.len() == 8 + 8 * v.len()
    &&& le_u64_at(b, 0) == v.len()
    &&& forall|i: int| 0 <= i < v.len() ==> le_u64_at(b, 8 + 8 * i) == #[trigger] v[i] as int
}

/// The element count that the first eight bytes of a blob announce.
pub open spec fn announced_len(b: Seq<u8>) -> int {
    le_u64_at(b, 0)
}

/// A blob can be read back as a vector: it holds a length and at least that
/// many elements after it (further bytes are ignored).
pub open spec fn decodable(b: Seq<u8>) -> bool {
    b.len() >= 8 && b.len() - 8 >= 8 * announced_len(b)
}

/// What a blob decodes to: `v` has the announced length and the elements read
/// in order after the length.
pub open spec fn is_decoding_of(v: Seq<u64>, b: Seq<u8>) -> bool {
    &&& v.len() == announced_len(b)
    &&& forall|i: int| 0 <= i < v.len() ==> #[trigger] v[i] as int == le_u64_at(b, 8 + 8 * i)
}

/// Relies on `bincode::serialize` (bincode 1.3, fixed-width little-endian
/// integers, no size limit): a `Vec<u64>` is written as its length in eight
/// bytes followed by each element in eight bytes; with no limit and an
/// in-memory writer it does not fail.
#[verifier::external_body]
fn bincode_serialize(v: &Vec<u64>) -> (r: Option<Vec<u8>>)
    ensures
        r is Some,
        r matches Some(b) ==> is_encoding_of(b@, v@),
{
    bincode::serialize(v).ok()
}

/// Relies on `bincode::deserialize` (bincode 1.3, fixed-width little-endian
/// integers, trailing bytes allowed): it reads an eight-byte length and then
/// that many eight-byte elements, and fails exactly when the input runs out.
#[verifier::external_body]
fn bincode_deserialize(b: &[u8]) -> (r: Option<Vec<u64>>)
    ensures
        r is Some <==> decodable(b@),
        r matches Some(v) ==> is_decoding_of(v@, b@),
{
    bincode::deserialize::<Vec<u64>>(b).ok()
}

/// Encodes a feature vector into its stored binary form.
pub fn encode_vector(v: &Vec<u64>) -> (r: Vec<u8>)
    ensures
        is_encoding_of(r@, v@),
{
    match bincode_serialize(v) {
        Some(b) => b,
        None => {
            proof {
                assert(false);
            }
            Vec::new()
        },
    }
}

/// Decodes a stored blob; `None` when the blob is too short for what it
/// announces.
pub fn decode_vector(b: &[u8]) -> (r: Option<Vec<u64>>)
    ensures
        r is Some <==> decodable(b@),
        r matches Some(v) ==> is_decoding_of(v@, b@),
{
    bincode_deserialize(b)
}

/// Reading back the encoding of a vector yields that vector, element for
/// element and bit for bit.
pub proof fn lemma_encode_decode_round_trip(v: Seq<u64>, b: Seq<u8>, w: Seq<u64>)
    requires
        is_encoding_of(b, v),
        is_decoding_of(w, b),
    ensures
        decodable(b),
        w == v,
{
    assert forall|i: int| 0 <= i < v.len() implies w[i] == v[i] by {
        assert(w[i] as int == le_u64_at(b, 8 + 8 * i));
    }
    assert(w =~= v);
}

} // verus!

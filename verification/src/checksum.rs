use vstd::prelude::*;

verus! {

/// The 32-byte digest that the network's hash function assigns to a byte
/// string. The result depends on the input bytes alone.
pub uninterp spec fn sha256_of(b: Seq<u8>) -> Seq<u8>;

/// Relies on sha2::Sha256 through digest::Digest::digest: the output is the
/// SHA-256 digest of the input, 32 bytes long, a function of the input alone.
#[verifier::external_body]
fn sha256(b: &[u8]) -> (r: Vec<u8>)
    ensures
        r@ == sha256_of(b@),
        r@.len() == 32,
{
    <sha2::Sha256 as sha2::Digest>::digest(b).to_vec()
}

/// A frame's checksum: the first four bytes of the double digest of its
/// payload. Written as a four-place sequence so its length is four whatever
/// is assumed of the digest.
pub open spec fn spec_checksum(payload: Seq<u8>) -> Seq<u8> {
    Seq::new(
        4,
        |i: int|
            if i < sha256_of(sha256_of(payload)).len() {
                sha256_of(sha256_of(payload))[i]
            } else {
                0u8
            },
    )
}

/// Computes the four checksum bytes of a payload.
pub fn checksum(payload: &[u8]) -> (r: Vec<u8>)
    ensures
        r@ == spec_checksum(payload@),
        r@.len() == 4,
{
    let first = sha256(payload);
    let second = sha256(first.as_slice());
    let mut out: Vec<u8> = Vec::new();
    out.push(second[0]);
    out.push(second[1]);
    out.push(second[2]);
    out.push(second[3]);
    proof {
        assert(out@ =~= spec_checksum(payload@));
    }
    out
}

} // verus!

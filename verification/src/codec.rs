use vstd::prelude::*;
use vstd::bytes::{
    spec_u16_from_le_bytes, spec_u16_to_le_bytes, spec_u32_from_le_bytes, spec_u32_to_le_bytes,
    spec_u64_from_le_bytes, spec_u64_to_le_bytes, u16_from_le_bytes, u16_to_le_bytes,
    u32_from_le_bytes, u32_to_le_bytes, u64_from_le_bytes, u64_to_le_bytes,
    lemma_auto_spec_u16_to_from_le_bytes, lemma_auto_spec_u32_to_from_le_bytes,
    lemma_auto_spec_u64_to_from_le_bytes,
};
use vstd::slice::{slice_index_get, slice_subrange, slice_to_vec};
use vstd::assert_seqs_equal;

verus! {

/// Errors a decoder can report. Every decoder returns these as values; none
/// panics on malformed input.
#[derive(Clone, Copy, Debug, PartialEq, Eq, Structural)]
pub enum ParseError {
    /// Fewer bytes were available than the format requires.
    TruncatedInput,
    /// Bytes remained after a payload was fully parsed.
    TrailingBytes,
    /// A field's value is outside its permitted range.
    MalformedField,
    /// The header's checksum does not match the payload's digest.
    ChecksumMismatch,
    /// The header claims a payload longer than the maximum frame size.
    PayloadTooLarge,
    /// The header's network magic is not this network's constant.
    HeaderInvalid,
}

/// True exactly when the two byte strings hold the same bytes.
pub fn bytes_eq(a: &[u8], b: &[u8]) -> (r: bool)
    ensures
        r == (a@ == b@),
{
    if a.len() != b.len() {
        return false;
    }
    let mut i: usize = 0;
    while i < a.len()
        invariant
            i <= a@.len(),
            a@.len() == b@.len(),
            forall|j: int| 0 <= j < i ==> a@[j] == b@[j],
        decreases a@.len() - i,
    {
        if *slice_index_get(a, i) != *slice_index_get(b, i) {
            return false;
        }
        i = i + 1;
    }
    proof {
        assert_seqs_equal!(a@ == b@);
    }
    true
}

/// A vector of `n` zero bytes.
pub fn zero_vec(n: usize) -> (r: Vec<u8>)
    ensures
        r@.len() == n,
        forall|i: int| 0 <= i < n ==> r@[i] == 0u8,
{
    let mut v: Vec<u8> = Vec::new();
    let mut i: usize = 0;
    while i < n
        invariant
            i <= n,
            v@.len() == i,
            forall|j: int| 0 <= j < i ==> v@[j] == 0u8,
        decreases n - i,
    {
        v.push(0u8);
        i = i + 1;
    }
    v
}

/// Big-endian byte pair of a 16-bit value (network byte order for ports).
pub open spec fn spec_u16_to_be_bytes(x: u16) -> Seq<u8> {
    seq![spec_u16_to_le_bytes(x)[1], spec_u16_to_le_bytes(x)[0]]
}

/// The 16-bit value read from a big-endian byte pair.
pub open spec fn spec_u16_from_be_bytes(s: Seq<u8>) -> u16
    recommends
        s.len() == 2,
{
    spec_u16_from_le_bytes(seq![s[1], s[0]])
}

pub proof fn lemma_u16_be_round_trip(x: u16)
    ensures
        spec_u16_to_be_bytes(x).len() == 2,
        spec_u16_from_be_bytes(spec_u16_to_be_bytes(x)) == x,
{
    lemma_auto_spec_u16_to_from_le_bytes();
    assert(spec_u16_to_le_bytes(x).len() == 2);
    assert(spec_u16_from_le_bytes(spec_u16_to_le_bytes(x)) == x);
    assert_seqs_equal!(
        seq![spec_u16_to_be_bytes(x)[1], spec_u16_to_be_bytes(x)[0]] == spec_u16_to_le_bytes(x)
    );
    assert(spec_u16_from_be_bytes(spec_u16_to_be_bytes(x)) == spec_u16_from_le_bytes(
        seq![spec_u16_to_be_bytes(x)[1], spec_u16_to_be_bytes(x)[0]],
    ));
}

pub fn u16_to_be_vec(x: u16) -> (r: Vec<u8>)
    ensures
        r@ == spec_u16_to_be_bytes(x),
        r@.len() == 2,
{
    proof {
        lemma_auto_spec_u16_to_from_le_bytes();
    }
    let le = u16_to_le_bytes(x);
    let mut v: Vec<u8> = Vec::new();
    v.push(le[1]);
    v.push(le[0]);
    proof {
        assert_seqs_equal!(v@ == spec_u16_to_be_bytes(x));
    }
    v
}

pub fn read_u16_be(buf: &[u8], pos: usize) -> (x: u16)
    requires
        pos + 2 <= buf@.len(),
    ensures
        x == spec_u16_from_be_bytes(buf@.subrange(pos as int, pos as int + 2)),
{
    let n = buf.len();
    let mut le: Vec<u8> = Vec::new();
    le.push(*slice_index_get(buf, pos + 1));
    le.push(*slice_index_get(buf, pos));
    let x = u16_from_le_bytes(le.as_slice());
    proof {
        let s = buf@.subrange(pos as int, pos as int + 2);
        assert_seqs_equal!(le@ == seq![s[1], s[0]]);
    }
    x
}

/// Reads a little-endian 32-bit value at `pos`.
pub fn read_u32_le(buf: &[u8], pos: usize) -> (x: u32)
    requires
        pos + 4 <= buf@.len(),
    ensures
        x == spec_u32_from_le_bytes(buf@.subrange(pos as int, pos as int + 4)),
{
    let n = buf.len();
    u32_from_le_bytes(slice_subrange(buf, pos, pos + 4))
}

/// Reads a little-endian 64-bit value at `pos`.
pub fn read_u64_le(buf: &[u8], pos: usize) -> (x: u64)
    requires
        pos + 8 <= buf@.len(),
    ensures
        x == spec_u64_from_le_bytes(buf@.subrange(pos as int, pos as int + 8)),
{
    let n = buf.len();
    u64_from_le_bytes(slice_subrange(buf, pos, pos + 8))
}

/// Copies `n` bytes starting at `pos` into a fresh vector.
pub fn read_bytes(buf: &[u8], pos: usize, n: usize) -> (r: Vec<u8>)
    requires
        pos + n <= buf@.len(),
    ensures
        r@ == buf@.subrange(pos as int, pos as int + n),
{
    let total = buf.len();
    slice_to_vec(slice_subrange(buf, pos, pos + n))
}

pub fn write_u16_be(out: &mut Vec<u8>, x: u16)
    ensures
        final(out)@ == old(out)@ + spec_u16_to_be_bytes(x),
{
    let mut t = u16_to_be_vec(x);
    out.append(&mut t);
}

pub fn write_u32_le(out: &mut Vec<u8>, x: u32)
    ensures
        final(out)@ == old(out)@ + spec_u32_to_le_bytes(x),
{
    let mut t = u32_to_le_bytes(x);
    out.append(&mut t);
}

pub fn write_u64_le(out: &mut Vec<u8>, x: u64)
    ensures
        final(out)@ == old(out)@ + spec_u64_to_le_bytes(x),
{
    let mut t = u64_to_le_bytes(x);
    out.append(&mut t);
}

pub fn write_bytes(out: &mut Vec<u8>, bytes: &[u8])
    ensures
        final(out)@ == old(out)@ + bytes@,
{
    let mut t = slice_to_vec(bytes);
    out.append(&mut t);
}

/// Variable-width count prefix: values below 0xFD take one byte; larger
/// values take a one-byte tag and a 2-, 4- or 8-byte little-endian body.
pub open spec fn spec_compact_size(v: u64) -> Seq<u8> {
    if v < 0xFD {
        seq![v as u8]
    } else if v <= 0xFFFF {
        seq![0xFDu8] + spec_u16_to_le_bytes(v as u16)
    } else if v <= 0xFFFFFFFF {
        seq![0xFEu8] + spec_u32_to_le_bytes(v as u32)
    } else {
        seq![0xFFu8] + spec_u64_to_le_bytes(v)
    }
}

/// Total reader for a compact-size count at `pos`: `None` exactly when the
/// buffer is too short.
pub open spec fn spec_read_compact_size(b: Seq<u8>, pos: int) -> Option<(u64, int)> {
    if 0 <= pos < b.len() {
        let tag = b[pos];
        if tag < 0xFD {
            Some((tag as u64, pos + 1))
        } else if tag == 0xFD {
            if pos + 3 <= b.len() {
                Some((spec_u16_from_le_bytes(b.subrange(pos + 1, pos + 3)) as u64, pos + 3))
            } else {
                None
            }
        } else if tag == 0xFE {
            if pos + 5 <= b.len() {
                Some((spec_u32_from_le_bytes(b.subrange(pos + 1, pos + 5)) as u64, pos + 5))
            } else {
                None
            }
        } else {
            if pos + 9 <= b.len() {
                Some((spec_u64_from_le_bytes(b.subrange(pos + 1, pos + 9)), pos + 9))
            } else {
                None
            }
        }
    } else {
        None
    }
}

pub fn write_compact_size(out: &mut Vec<u8>, v: u64)
    ensures
        final(out)@ == old(out)@ + spec_compact_size(v),
{
    if v < 0xFD {
        out.push(v as u8);
        proof {
            assert_seqs_equal!(out@ == old(out)@ + spec_compact_size(v));
        }
    } else if v <= 0xFFFF {
        out.push(0xFDu8);
        write_u16_le(out, v as u16);
        proof {
            assert_seqs_equal!(out@ == old(out)@ + spec_compact_size(v));
        }
    } else if v <= 0xFFFFFFFF {
        out.push(0xFEu8);
        write_u32_le(out, v as u32);
        proof {
            assert_seqs_equal!(out@ == old(out)@ + spec_compact_size(v));
        }
    } else {
        out.push(0xFFu8);
        write_u64_le(out, v);
        proof {
            assert_seqs_equal!(out@ == old(out)@ + spec_compact_size(v));
        }
    }
}

pub fn write_u16_le(out: &mut Vec<u8>, x: u16)
    ensures
        final(out)@ == old(out)@ + spec_u16_to_le_bytes(x),
{
    let mut t = u16_to_le_bytes(x);
    out.append(&mut t);
}

/// Reads a compact-size count; fails with `TruncatedInput` exactly when the
/// spec-level reader finds the buffer too short.
pub fn read_compact_size(buf: &[u8], pos: usize) -> (r: Result<(u64, usize), ParseError>)
    requires
        pos <= buf@.len(),
    ensures
        match r {
            Ok((v, newpos)) => spec_read_compact_size(buf@, pos as int) == Some(
                (v, newpos as int),
            ) && pos < newpos <= buf@.len(),
            Err(e) => spec_read_compact_size(buf@, pos as int) is None && e
                == ParseError::TruncatedInput,
        },
{
    if pos >= buf.len() {
        return Err(ParseError::TruncatedInput);
    }
    let tag = *slice_index_get(buf, pos);
    if tag < 0xFD {
        Ok((tag as u64, pos + 1))
    } else if tag == 0xFD {
        if buf.len() - pos < 3 {
            return Err(ParseError::TruncatedInput);
        }
        let v = u16_from_le_bytes(slice_subrange(buf, pos + 1, pos + 3));
        Ok((v as u64, pos + 3))
    } else if tag == 0xFE {
        if buf.len() - pos < 5 {
            return Err(ParseError::TruncatedInput);
        }
        let v = u32_from_le_bytes(slice_subrange(buf, pos + 1, pos + 5));
        Ok((v as u64, pos + 5))
    } else {
        if buf.len() - pos < 9 {
            return Err(ParseError::TruncatedInput);
        }
        let v = u64_from_le_bytes(slice_subrange(buf, pos + 1, pos + 9));
        Ok((v, pos + 9))
    }
}

/// Splitting a subrange known to equal a concatenation into its two parts.
pub proof fn lemma_subrange_split(b: Seq<u8>, pos: int, s1: Seq<u8>, s2: Seq<u8>)
    requires
        0 <= pos,
        pos + s1.len() + s2.len() <= b.len(),
        b.subrange(pos, pos + s1.len() + s2.len()) == s1 + s2,
    ensures
        b.subrange(pos, pos + s1.len()) == s1,
        b.subrange(pos + s1.len(), pos + s1.len() + s2.len()) == s2,
{
    let whole = b.subrange(pos, pos + s1.len() + s2.len());
    assert_seqs_equal!(b.subrange(pos, pos + s1.len()) == s1, i => {
        assert(b.subrange(pos, pos + s1.len())[i] == whole[i]);
        assert(whole[i] == (s1 + s2)[i]);
    });
    assert_seqs_equal!(
        b.subrange(pos + s1.len(), pos + s1.len() + s2.len()) == s2, i => {
        assert(b.subrange(pos + s1.len(), pos + s1.len() + s2.len())[i]
            == whole[i + s1.len()]);
        assert(whole[i + s1.len()] == (s1 + s2)[i + s1.len()]);
    });
}

/// Reading back a compact-size prefix that was written by
/// `spec_compact_size` yields the original value and stops right after it.
pub proof fn lemma_compact_size_round_trip(b: Seq<u8>, pos: int, v: u64)
    requires
        0 <= pos,
        pos + spec_compact_size(v).len() <= b.len(),
        b.subrange(pos, pos + spec_compact_size(v).len()) == spec_compact_size(v),
    ensures
        spec_read_compact_size(b, pos) == Some((v, pos + spec_compact_size(v).len())),
{
    lemma_auto_spec_u16_to_from_le_bytes();
    lemma_auto_spec_u32_to_from_le_bytes();
    lemma_auto_spec_u64_to_from_le_bytes();
    let enc = spec_compact_size(v);
    if v < 0xFD {
        assert(b[pos] == enc[0]);
    } else if v <= 0xFFFF {
        lemma_subrange_split(b, pos, seq![0xFDu8], spec_u16_to_le_bytes(v as u16));
        assert(b[pos] == b.subrange(pos, pos + 1)[0]);
        assert(b.subrange(pos + 1, pos + 3) == spec_u16_to_le_bytes(v as u16));
    } else if v <= 0xFFFFFFFF {
        lemma_subrange_split(b, pos, seq![0xFEu8], spec_u32_to_le_bytes(v as u32));
        assert(b[pos] == b.subrange(pos, pos + 1)[0]);
        assert(b.subrange(pos + 1, pos + 5) == spec_u32_to_le_bytes(v as u32));
    } else {
        lemma_subrange_split(b, pos, seq![0xFFu8], spec_u64_to_le_bytes(v));
        assert(b[pos] == b.subrange(pos, pos + 1)[0]);
        assert(b.subrange(pos + 1, pos + 9) == spec_u64_to_le_bytes(v));
    }
}

} // verus!

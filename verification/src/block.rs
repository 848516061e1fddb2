use vstd::prelude::*;
use vstd::bytes::{
    spec_u32_from_le_bytes, spec_u32_to_le_bytes, lemma_auto_spec_u32_to_from_le_bytes,
};
use crate::codec::{
    lemma_compact_size_round_trip, lemma_subrange_split, read_bytes, read_compact_size,
    read_u32_le, spec_compact_size, spec_read_compact_size, write_bytes, write_compact_size,
    write_u32_le, ParseError,
};

verus! {

/// One block header as the Headers payload carries it: fixed fields, then a
/// length-prefixed equihash solution.
#[derive(Clone, Debug, PartialEq, Eq)]
pub struct HeadersRecord {
    pub version: u32,
    pub prev_block: Vec<u8>,
    pub merkle_root: Vec<u8>,
    pub reserved: Vec<u8>,
    pub timestamp: u32,
    pub bits: u32,
    pub nonce: Vec<u8>,
    pub solution: Vec<u8>,
}

pub struct HeadersRecordV {
    pub version: u32,
    pub prev_block: Seq<u8>,
    pub merkle_root: Seq<u8>,
    pub reserved: Seq<u8>,
    pub timestamp: u32,
    pub bits: u32,
    pub nonce: Seq<u8>,
    pub solution: Seq<u8>,
}

impl View for HeadersRecord {
    type V = HeadersRecordV;

    open spec fn view(&self) -> HeadersRecordV {
        HeadersRecordV {
            version: self.version,
            prev_block: self.prev_block@,
            merkle_root: self.merkle_root@,
            reserved: self.reserved@,
            timestamp: self.timestamp,
            bits: self.bits,
            nonce: self.nonce@,
            solution: self.solution@,
        }
    }
}

impl HeadersRecordV {
    /// The three hashes and the reserved field are 32 bytes each; the
    /// solution's length fits the count prefix.
    pub open spec fn wf(self) -> bool {
        &&& self.prev_block.len() == 32
        &&& self.merkle_root.len() == 32
        &&& self.reserved.len() == 32
        &&& self.nonce.len() == 32
        &&& self.solution.len() <= u64::MAX
    }

    /// 140 fixed bytes, then the solution behind its count prefix.
    pub open spec fn spec_encode(self) -> Seq<u8> {
        spec_u32_to_le_bytes(self.version) + self.prev_block + self.merkle_root + self.reserved
            + spec_u32_to_le_bytes(self.timestamp) + spec_u32_to_le_bytes(self.bits) + self.nonce
            + spec_compact_size(self.solution.len() as u64) + self.solution
    }
}

/// Reads one block header at `pos`; `None` exactly when the buffer runs out,
/// either inside the fixed fields or inside the claimed solution.
pub open spec fn spec_read_headers_record(b: Seq<u8>, pos: int) -> Option<(HeadersRecordV, int)> {
    if 0 <= pos && pos + 140 <= b.len() {
        match spec_read_compact_size(b, pos + 140) {
            None => None,
            Some((sl, p2)) => if sl > b.len() - p2 {
                None
            } else {
                Some(
                    (
                        HeadersRecordV {
                            version: spec_u32_from_le_bytes(b.subrange(pos, pos + 4)),
                            prev_block: b.subrange(pos + 4, pos + 36),
                            merkle_root: b.subrange(pos + 36, pos + 68),
                            reserved: b.subrange(pos + 68, pos + 100),
                            timestamp: spec_u32_from_le_bytes(b.subrange(pos + 100, pos + 104)),
                            bits: spec_u32_from_le_bytes(b.subrange(pos + 104, pos + 108)),
                            nonce: b.subrange(pos + 108, pos + 140),
                            solution: b.subrange(p2, p2 + sl),
                        },
                        p2 + sl,
                    ),
                )
            },
        }
    } else {
        None
    }
}

pub fn encode_headers_record_into(out: &mut Vec<u8>, r: &HeadersRecord)
    requires
        r@.wf(),
    ensures
        final(out)@ == old(out)@ + r@.spec_encode(),
{
    write_u32_le(out, r.version);
    write_bytes(out, r.prev_block.as_slice());
    write_bytes(out, r.merkle_root.as_slice());
    write_bytes(out, r.reserved.as_slice());
    write_u32_le(out, r.timestamp);
    write_u32_le(out, r.bits);
    write_bytes(out, r.nonce.as_slice());
    write_compact_size(out, r.solution.len() as u64);
    write_bytes(out, r.solution.as_slice());
    proof {
        assert(out@ =~= old(out)@ + r@.spec_encode());
    }
}

pub fn read_headers_record(buf: &[u8], pos: usize) -> (r: Result<(HeadersRecord, usize), ParseError>)
    requires
        pos <= buf@.len(),
    ensures
        match r {
            Ok((rec, p)) => spec_read_headers_record(buf@, pos as int) == Some((rec@, p as int))
                && rec@.wf() && pos < p <= buf@.len(),
            Err(e) => spec_read_headers_record(buf@, pos as int) is None && e
                == ParseError::TruncatedInput,
        },
{
    let n = buf.len();
    if n - pos < 140 {
        return Err(ParseError::TruncatedInput);
    }
    let version = read_u32_le(buf, pos);
    let prev_block = read_bytes(buf, pos + 4, 32);
    let merkle_root = read_bytes(buf, pos + 36, 32);
    let reserved = read_bytes(buf, pos + 68, 32);
    let timestamp = read_u32_le(buf, pos + 100);
    let bits = read_u32_le(buf, pos + 104);
    let nonce = read_bytes(buf, pos + 108, 32);
    let (sl, p2) = match read_compact_size(buf, pos + 140) {
        Ok(v) => v,
        Err(e) => {
            return Err(e);
        },
    };
    if sl > (n - p2) as u64 {
        return Err(ParseError::TruncatedInput);
    }
    let sol_len = sl as usize;
    let solution = read_bytes(buf, p2, sol_len);
    let rec = HeadersRecord {
        version,
        prev_block,
        merkle_root,
        reserved,
        timestamp,
        bits,
        nonce,
        solution,
    };
    Ok((rec, p2 + sol_len))
}

/// Reading back an encoded block header that sits at `pos` yields its fields
/// and stops right after them.
pub proof fn lemma_headers_record_round_trip(b: Seq<u8>, pos: int, r: HeadersRecordV)
    requires
        r.wf(),
        0 <= pos,
        pos + r.spec_encode().len() <= b.len(),
        b.subrange(pos, pos + r.spec_encode().len()) == r.spec_encode(),
    ensures
        r.spec_encode().len() == 140 + spec_compact_size(r.solution.len() as u64).len()
            + r.solution.len(),
        spec_read_headers_record(b, pos) == Some((r, pos + r.spec_encode().len())),
{
    lemma_auto_spec_u32_to_from_le_bytes();
    let e1 = spec_u32_to_le_bytes(r.version);
    let e5 = spec_u32_to_le_bytes(r.timestamp);
    let e6 = spec_u32_to_le_bytes(r.bits);
    let cs = spec_compact_size(r.solution.len() as u64);
    assert(e1.len() == 4);
    assert(e5.len() == 4);
    assert(e6.len() == 4);
    let l1 = e1 + r.prev_block;
    let l2 = l1 + r.merkle_root;
    let l3 = l2 + r.reserved;
    let l4 = l3 + e5;
    let l5 = l4 + e6;
    let l6 = l5 + r.nonce;
    let l7 = l6 + cs;
    let enc = l7 + r.solution;
    assert(enc == r.spec_encode());
    lemma_subrange_split(b, pos, l7, r.solution);
    lemma_subrange_split(b, pos, l6, cs);
    lemma_subrange_split(b, pos, l5, r.nonce);
    lemma_subrange_split(b, pos, l4, e6);
    lemma_subrange_split(b, pos, l3, e5);
    lemma_subrange_split(b, pos, l2, r.reserved);
    lemma_subrange_split(b, pos, l1, r.merkle_root);
    lemma_subrange_split(b, pos, e1, r.prev_block);
    lemma_compact_size_round_trip(b, pos + 140, r.solution.len() as u64);
    let d = spec_read_headers_record(b, pos)->Some_0.0;
    assert(d.version == r.version);
    assert(d.prev_block == r.prev_block);
    assert(d.merkle_root == r.merkle_root);
    assert(d.reserved == r.reserved);
    assert(d.timestamp == r.timestamp);
    assert(d.bits == r.bits);
    assert(d.nonce == r.nonce);
    assert(d.solution == r.solution);
}

/// A possibly empty, ordered list of block headers.
#[derive(Clone, Debug, PartialEq, Eq)]
pub struct Headers {
    pub headers: Vec<HeadersRecord>,
}

pub struct HeadersV {
    pub headers: Seq<HeadersRecordV>,
}

impl View for Headers {
    type V = HeadersV;

    open spec fn view(&self) -> HeadersV {
        HeadersV { headers: self.headers@.map_values(|r: HeadersRecord| r@) }
    }
}

/// The bytes of a header list, one record after another.
pub open spec fn spec_encode_headers_records(s: Seq<HeadersRecordV>) -> Seq<u8>
    decreases s.len(),
{
    if s.len() == 0 {
        Seq::empty()
    } else {
        s[0].spec_encode() + spec_encode_headers_records(s.drop_first())
    }
}

pub proof fn lemma_encode_headers_records_push(s: Seq<HeadersRecordV>, r: HeadersRecordV)
    ensures
        spec_encode_headers_records(s.push(r)) == spec_encode_headers_records(s)
            + r.spec_encode(),
    decreases s.len(),
{
    if s.len() == 0 {
        assert(s.push(r).drop_first() =~= Seq::<HeadersRecordV>::empty());
        assert(spec_encode_headers_records(Seq::<HeadersRecordV>::empty()) =~= Seq::<u8>::empty());
        assert(spec_encode_headers_records(s.push(r)) == s.push(r)[0].spec_encode()
            + spec_encode_headers_records(s.push(r).drop_first()));
        assert(s.push(r)[0] == r);
        assert(r.spec_encode() + Seq::<u8>::empty() =~= r.spec_encode());
        assert(spec_encode_headers_records(s) + r.spec_encode() =~= r.spec_encode());
    } else {
        assert(s.push(r).drop_first() =~= s.drop_first().push(r));
        lemma_encode_headers_records_push(s.drop_first(), r);
        assert(spec_encode_headers_records(s.push(r)) == s[0].spec_encode() + (
        spec_encode_headers_records(s.drop_first()) + r.spec_encode()));
        assert(s[0].spec_encode() + (spec_encode_headers_records(s.drop_first())
            + r.spec_encode()) =~= (s[0].spec_encode() + spec_encode_headers_records(
            s.drop_first(),
        )) + r.spec_encode());
    }
}

impl HeadersV {
    pub open spec fn wf(self) -> bool {
        forall|i: int| 0 <= i < self.headers.len() ==> #[trigger] self.headers[i].wf()
    }

    /// A count prefix, then each record's bytes in order.
    pub open spec fn spec_encode(self) -> Seq<u8> {
        spec_compact_size(self.headers.len() as u64) + spec_encode_headers_records(self.headers)
    }
}

/// Reads `n` records one after another; `None` exactly when the buffer runs
/// out first.
pub open spec fn spec_read_headers_records(b: Seq<u8>, pos: int, n: nat) -> Option<
    (Seq<HeadersRecordV>, int),
>
    decreases n,
{
    if n == 0 {
        Some((Seq::empty(), pos))
    } else {
        match spec_read_headers_record(b, pos) {
            None => None,
            Some((r, p2)) => match spec_read_headers_records(b, p2, (n - 1) as nat) {
                None => None,
                Some((rs, p3)) => Some((seq![r] + rs, p3)),
            },
        }
    }
}

/// Prepending already-read records to the outcome of reading the rest.
pub open spec fn compose_headers_parsed(
    acc: Seq<HeadersRecordV>,
    r: Option<(Seq<HeadersRecordV>, int)>,
) -> Option<(Seq<HeadersRecordV>, int)> {
    match r {
        None => None,
        Some((s, p)) => Some((acc + s, p)),
    }
}

/// The whole Headers payload: count, records, and nothing after them.
/// The count may not exceed the bytes that follow it, which bounds any
/// allocation by the input's own size.
pub open spec fn spec_decode_headers(b: Seq<u8>) -> Result<HeadersV, ParseError> {
    match spec_read_compact_size(b, 0) {
        None => Err(ParseError::TruncatedInput),
        Some((n, p)) => if n > b.len() - p {
            Err(ParseError::MalformedField)
        } else {
            match spec_read_headers_records(b, p, n as nat) {
                None => Err(ParseError::TruncatedInput),
                Some((rs, p2)) => if p2 == b.len() {
                    Ok(HeadersV { headers: rs })
                } else {
                    Err(ParseError::TrailingBytes)
                },
            }
        },
    }
}

impl Headers {
    /// The empty header list.
    pub fn empty() -> (r: Headers)
        ensures
            r@.headers.len() == 0,
            r@.wf(),
    {
        let r = Headers { headers: Vec::new() };
        proof {
            assert(r@.headers =~= Seq::<HeadersRecordV>::empty());
        }
        r
    }

    pub fn new(headers: Vec<HeadersRecord>) -> (r: Headers)
        ensures
            r@.headers == headers@.map_values(|x: HeadersRecord| x@),
    {
        Headers { headers }
    }

    pub fn encode(&self) -> (r: Vec<u8>)
        requires
            self@.wf(),
        ensures
            r@ == self@.spec_encode(),
    {
        let ghost whole = self@.headers;
        let mut out: Vec<u8> = Vec::new();
        write_compact_size(&mut out, self.headers.len() as u64);
        let mut i: usize = 0;
        while i < self.headers.len()
            invariant
                i <= self.headers.len(),
                whole == self@.headers,
                self@.wf(),
                whole.len() == self.headers.len(),
                out@ == spec_compact_size(whole.len() as u64) + spec_encode_headers_records(
                    whole.take(i as int),
                ),
            decreases self.headers.len() - i,
        {
            proof {
                assert(whole[i as int].wf());
                assert(whole.take(i as int + 1) =~= whole.take(i as int).push(whole[i as int]));
                lemma_encode_headers_records_push(whole.take(i as int), whole[i as int]);
            }
            encode_headers_record_into(&mut out, &self.headers[i]);
            proof {
                assert(out@ =~= spec_compact_size(whole.len() as u64)
                    + spec_encode_headers_records(whole.take(i as int + 1)));
            }
            i = i + 1;
        }
        proof {
            assert(whole.take(whole.len() as int) =~= whole);
        }
        out
    }

    pub fn decode(buf: &[u8]) -> (r: Result<Headers, ParseError>)
        ensures
            match r {
                Ok(h) => spec_decode_headers(buf@) == Ok::<HeadersV, ParseError>(h@) && h@.wf(),
                Err(e) => spec_decode_headers(buf@) == Err::<HeadersV, ParseError>(e),
            },
    {
        let n = buf.len();
        let (count, start) = match read_compact_size(buf, 0) {
            Ok(v) => v,
            Err(e) => {
                return Err(e);
            },
        };
        if count > (n - start) as u64 {
            return Err(ParseError::MalformedField);
        }
        let count_us = count as usize;
        let mut recs: Vec<HeadersRecord> = Vec::new();
        let mut pos: usize = start;
        let mut i: usize = 0;
        while i < count_us
            invariant
                i <= count_us,
                count_us == count,
                start <= pos <= n,
                n == buf@.len(),
                spec_read_compact_size(buf@, 0) == Some((count, start as int)),
                count <= buf@.len() - start,
                recs@.len() == i,
                forall|j: int| 0 <= j < i ==> (#[trigger] recs@[j])@.wf(),
                compose_headers_parsed(
                    recs@.map_values(|x: HeadersRecord| x@),
                    spec_read_headers_records(buf@, pos as int, (count_us - i) as nat),
                ) == spec_read_headers_records(buf@, start as int, count as nat),
            decreases count_us - i,
        {
            let (rec, p2) = match read_headers_record(buf, pos) {
                Ok(v) => v,
                Err(e) => {
                    proof {
                        assert(spec_read_headers_records(buf@, pos as int, (count_us - i) as nat)
                            is None);
                        assert(spec_read_headers_records(buf@, start as int, count as nat)
                            is None);
                        assert(spec_decode_headers(buf@) == Err::<HeadersV, ParseError>(
                            ParseError::TruncatedInput,
                        ));
                    }
                    return Err(e);
                },
            };
            proof {
                let accv = recs@.map_values(|x: HeadersRecord| x@);
                let rest = spec_read_headers_records(buf@, p2 as int, (count_us - i - 1) as nat);
                assert(spec_read_headers_records(buf@, pos as int, (count_us - i) as nat)
                    == compose_headers_parsed(seq![rec@], rest)) by {
                    assert(spec_read_headers_record(buf@, pos as int) == Some((rec@, p2 as int)));
                }
                assert(recs@.push(rec).map_values(|x: HeadersRecord| x@) =~= accv.push(rec@));
                if rest is Some {
                    let (rs, p3) = rest->Some_0;
                    assert(accv + (seq![rec@] + rs) =~= accv.push(rec@) + rs);
                }
            }
            recs.push(rec);
            pos = p2;
            i = i + 1;
        }
        proof {
            assert(spec_read_headers_records(buf@, pos as int, 0) == Some(
                (Seq::<HeadersRecordV>::empty(), pos as int),
            ));
            let accv = recs@.map_values(|x: HeadersRecord| x@);
            assert(accv + Seq::<HeadersRecordV>::empty() =~= accv);
        }
        if pos != n {
            return Err(ParseError::TrailingBytes);
        }
        let h = Headers { headers: recs };
        proof {
            assert(spec_decode_headers(buf@) == Ok::<HeadersV, ParseError>(h@));
        }
        Ok(h)
    }
}

/// Each record's bytes are at least as many as one, so a record count never
/// exceeds the byte count that carries it.
pub proof fn lemma_headers_records_len_ge(s: Seq<HeadersRecordV>)
    requires
        forall|i: int| 0 <= i < s.len() ==> #[trigger] s[i].wf(),
    ensures
        spec_encode_headers_records(s).len() >= s.len(),
    decreases s.len(),
{
    if s.len() == 0 {
    } else {
        assert(s[0].wf());
        assert(s[0].spec_encode().len() >= 140) by {
            lemma_auto_spec_u32_to_from_le_bytes();
            assert(spec_u32_to_le_bytes(s[0].version).len() == 4);
            assert(spec_u32_to_le_bytes(s[0].timestamp).len() == 4);
            assert(spec_u32_to_le_bytes(s[0].bits).len() == 4);
        }
        assert(forall|i: int|
            0 <= i < s.drop_first().len() ==> #[trigger] s.drop_first()[i].wf());
        lemma_headers_records_len_ge(s.drop_first());
    }
}

/// Reading back an encoded record list that sits at `pos` yields the same
/// records.
pub proof fn lemma_headers_records_round_trip(b: Seq<u8>, pos: int, s: Seq<HeadersRecordV>)
    requires
        forall|i: int| 0 <= i < s.len() ==> #[trigger] s[i].wf(),
        0 <= pos,
        pos + spec_encode_headers_records(s).len() <= b.len(),
        b.subrange(pos, pos + spec_encode_headers_records(s).len())
            == spec_encode_headers_records(s),
    ensures
        spec_read_headers_records(b, pos, s.len()) == Some(
            (s, pos + spec_encode_headers_records(s).len()),
        ),
    decreases s.len(),
{
    if s.len() == 0 {
        assert(spec_encode_headers_records(s).len() == 0);
    } else {
        let r = s[0];
        let rest = s.drop_first();
        let renc = r.spec_encode();
        let restenc = spec_encode_headers_records(rest);
        assert(r.wf());
        lemma_subrange_split(b, pos, renc, restenc);
        lemma_headers_record_round_trip(b, pos, r);
        assert(forall|i: int| 0 <= i < rest.len() ==> #[trigger] rest[i].wf());
        lemma_headers_records_round_trip(b, pos + renc.len(), rest);
        assert(seq![r] + rest =~= s);
    }
}

/// Encoding then decoding a well-formed Headers yields it back.
pub proof fn lemma_headers_round_trip(h: HeadersV)
    requires
        h.wf(),
        h.headers.len() <= u64::MAX,
    ensures
        spec_decode_headers(h.spec_encode()) == Ok::<HeadersV, ParseError>(h),
{
    let b = h.spec_encode();
    let cnt = spec_compact_size(h.headers.len() as u64);
    let recs = spec_encode_headers_records(h.headers);
    lemma_headers_records_len_ge(h.headers);
    assert(b.subrange(0, b.len() as int) =~= b);
    lemma_subrange_split(b, 0, cnt, recs);
    lemma_compact_size_round_trip(b, 0, h.headers.len() as u64);
    lemma_headers_records_round_trip(b, cnt.len() as int, h.headers);
}

} // verus!

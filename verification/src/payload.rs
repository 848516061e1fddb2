use vstd::prelude::*;
use vstd::bytes::{
    spec_u32_from_le_bytes, spec_u32_to_le_bytes, spec_u64_from_le_bytes, spec_u64_to_le_bytes,
    lemma_auto_spec_u32_to_from_le_bytes, lemma_auto_spec_u64_to_from_le_bytes,
};
use crate::codec::{
    lemma_compact_size_round_trip, lemma_subrange_split, read_bytes, read_compact_size,
    read_u16_be, read_u32_le, read_u64_le, spec_compact_size, spec_read_compact_size,
    spec_u16_from_be_bytes, spec_u16_to_be_bytes, lemma_u16_be_round_trip, write_bytes,
    write_compact_size, write_u16_be, write_u32_le, write_u64_le, ParseError,
};

verus! {

/// An 8-byte nonce, compared by value; it pairs a Ping with its Pong.
#[derive(Clone, Copy, Debug, PartialEq, Eq, Structural, Hash)]
pub struct Nonce {
    pub value: u64,
}

impl Nonce {
    pub fn new(value: u64) -> (r: Nonce)
        ensures
            r.value == value,
    {
        Nonce { value }
    }

    /// The zero nonce: a valid nonce in its own right.
    pub fn zero() -> (r: Nonce)
        ensures
            r.value == 0,
    {
        Nonce { value: 0 }
    }

    /// The 8 little-endian bytes of the nonce.
    pub open spec fn spec_encode(self) -> Seq<u8> {
        spec_u64_to_le_bytes(self.value)
    }
}

impl Default for Nonce {
    fn default() -> (r: Nonce)
        ensures
            r.value == 0,
    {
        Nonce { value: 0 }
    }
}

/// Reads a nonce payload; it must be exactly 8 bytes.
pub open spec fn spec_decode_nonce(b: Seq<u8>) -> Result<Nonce, ParseError> {
    if b.len() < 8 {
        Err(ParseError::TruncatedInput)
    } else if b.len() > 8 {
        Err(ParseError::TrailingBytes)
    } else {
        Ok(Nonce { value: spec_u64_from_le_bytes(b) })
    }
}

pub fn encode_nonce_into(out: &mut Vec<u8>, n: &Nonce)
    ensures
        final(out)@ == old(out)@ + n.spec_encode(),
{
    write_u64_le(out, n.value);
}

pub fn decode_nonce(buf: &[u8]) -> (r: Result<Nonce, ParseError>)
    ensures
        r == spec_decode_nonce(buf@),
{
    if buf.len() < 8 {
        Err(ParseError::TruncatedInput)
    } else if buf.len() > 8 {
        Err(ParseError::TrailingBytes)
    } else {
        let v = read_u64_le(buf, 0);
        proof {
            assert(buf@.subrange(0, 8) =~= buf@);
        }
        Ok(Nonce { value: v })
    }
}

/// Encoding a nonce and reading it back yields the same nonce.
pub proof fn lemma_nonce_round_trip(n: Nonce)
    ensures
        n.spec_encode().len() == 8,
        spec_decode_nonce(n.spec_encode()) == Ok::<Nonce, ParseError>(n),
{
    lemma_auto_spec_u64_to_from_le_bytes();
    assert(spec_u64_to_le_bytes(n.value).len() == 8);
    assert(spec_u64_from_le_bytes(spec_u64_to_le_bytes(n.value)) == n.value);
}

/// A network endpoint as the Version body carries it: services bitmask,
/// 16-byte address, and port in network byte order.
#[derive(Clone, Debug, PartialEq, Eq)]
pub struct NetAddr {
    pub services: u64,
    pub ip: Vec<u8>,
    pub port: u16,
}

pub struct NetAddrV {
    pub services: u64,
    pub ip: Seq<u8>,
    pub port: u16,
}

impl View for NetAddr {
    type V = NetAddrV;

    open spec fn view(&self) -> NetAddrV {
        NetAddrV { services: self.services, ip: self.ip@, port: self.port }
    }
}

impl NetAddrV {
    pub open spec fn wf(self) -> bool {
        self.ip.len() == 16
    }

    /// 26 bytes: services, address, then the port big-endian.
    pub open spec fn spec_encode(self) -> Seq<u8> {
        spec_u64_to_le_bytes(self.services) + self.ip + spec_u16_to_be_bytes(self.port)
    }
}

impl NetAddr {
    pub fn new(services: u64, ip: Vec<u8>, port: u16) -> (r: NetAddr)
        requires
            ip@.len() == 16,
        ensures
            r@ == (NetAddrV { services, ip: ip@, port }),
            r@.wf(),
    {
        NetAddr { services, ip, port }
    }
}

/// Reads one endpoint at `pos`; `None` exactly when fewer than 26 bytes
/// remain.
pub open spec fn spec_read_net_addr(b: Seq<u8>, pos: int) -> Option<(NetAddrV, int)> {
    if 0 <= pos && pos + 26 <= b.len() {
        Some(
            (
                NetAddrV {
                    services: spec_u64_from_le_bytes(b.subrange(pos, pos + 8)),
                    ip: b.subrange(pos + 8, pos + 24),
                    port: spec_u16_from_be_bytes(b.subrange(pos + 24, pos + 26)),
                },
                pos + 26,
            ),
        )
    } else {
        None
    }
}

pub fn encode_net_addr_into(out: &mut Vec<u8>, a: &NetAddr)
    requires
        a@.wf(),
    ensures
        final(out)@ == old(out)@ + a@.spec_encode(),
{
    write_u64_le(out, a.services);
    write_bytes(out, a.ip.as_slice());
    write_u16_be(out, a.port);
    proof {
        assert(out@ =~= old(out)@ + a@.spec_encode());
    }
}

pub fn read_net_addr(buf: &[u8], pos: usize) -> (r: (NetAddr, usize))
    requires
        pos + 26 <= buf@.len(),
    ensures
        spec_read_net_addr(buf@, pos as int) == Some((r.0@, r.1 as int)),
        r.0@.wf(),
        r.1 == pos + 26,
{
    let n = buf.len();
    let services = read_u64_le(buf, pos);
    let ip = read_bytes(buf, pos + 8, 16);
    let port = read_u16_be(buf, pos + 24);
    (NetAddr { services, ip, port }, pos + 26)
}

pub proof fn lemma_net_addr_encode_len(a: NetAddrV)
    requires
        a.wf(),
    ensures
        a.spec_encode().len() == 26,
{
    lemma_auto_spec_u64_to_from_le_bytes();
    assert(spec_u64_to_le_bytes(a.services).len() == 8);
    lemma_u16_be_round_trip(a.port);
}

pub proof fn lemma_addr_record_encode_len(r: AddrRecordV)
    requires
        r.wf(),
    ensures
        r.spec_encode().len() == 30,
{
    lemma_auto_spec_u32_to_from_le_bytes();
    assert(spec_u32_to_le_bytes(r.timestamp).len() == 4);
    lemma_net_addr_encode_len(r.addr);
}

/// Reading back an encoded endpoint that sits at `pos` yields its fields and
/// stops right after its 26 bytes.
pub proof fn lemma_net_addr_round_trip(b: Seq<u8>, pos: int, a: NetAddrV)
    requires
        a.wf(),
        0 <= pos,
        pos + 26 <= b.len(),
        b.subrange(pos, pos + 26) == a.spec_encode(),
    ensures
        a.spec_encode().len() == 26,
        spec_read_net_addr(b, pos) == Some((a, pos + 26)),
{
    lemma_auto_spec_u64_to_from_le_bytes();
    lemma_u16_be_round_trip(a.port);
    let sv = spec_u64_to_le_bytes(a.services);
    let pt = spec_u16_to_be_bytes(a.port);
    assert(sv.len() == 8);
    assert(b.subrange(pos, pos + 26) == sv + (a.ip + pt)) by {
        assert(sv + a.ip + pt =~= sv + (a.ip + pt));
    }
    lemma_subrange_split(b, pos, sv, a.ip + pt);
    lemma_subrange_split(b, pos + 8, a.ip, pt);
    assert(spec_u64_from_le_bytes(sv) == a.services);
    assert(spec_u16_from_be_bytes(pt) == a.port);
    let d = spec_read_net_addr(b, pos)->Some_0.0;
    assert(d.services == a.services);
    assert(d.ip == a.ip);
    assert(d.port == a.port);
}

/// One entry of an Addr payload: an endpoint and the time it was last seen.
#[derive(Clone, Debug, PartialEq, Eq)]
pub struct AddrRecord {
    pub timestamp: u32,
    pub addr: NetAddr,
}

pub struct AddrRecordV {
    pub timestamp: u32,
    pub addr: NetAddrV,
}

impl View for AddrRecord {
    type V = AddrRecordV;

    open spec fn view(&self) -> AddrRecordV {
        AddrRecordV { timestamp: self.timestamp, addr: self.addr@ }
    }
}

impl AddrRecordV {
    pub open spec fn wf(self) -> bool {
        self.addr.wf()
    }

    /// 30 bytes: the seen-time, then the endpoint.
    pub open spec fn spec_encode(self) -> Seq<u8> {
        spec_u32_to_le_bytes(self.timestamp) + self.addr.spec_encode()
    }
}

pub open spec fn spec_read_addr_record(b: Seq<u8>, pos: int) -> Option<(AddrRecordV, int)> {
    if 0 <= pos && pos + 30 <= b.len() {
        match spec_read_net_addr(b, pos + 4) {
            Some((a, p2)) => Some(
                (
                    AddrRecordV {
                        timestamp: spec_u32_from_le_bytes(b.subrange(pos, pos + 4)),
                        addr: a,
                    },
                    p2,
                ),
            ),
            None => None,
        }
    } else {
        None
    }
}

pub fn encode_addr_record_into(out: &mut Vec<u8>, r: &AddrRecord)
    requires
        r@.wf(),
    ensures
        final(out)@ == old(out)@ + r@.spec_encode(),
{
    write_u32_le(out, r.timestamp);
    encode_net_addr_into(out, &r.addr);
    proof {
        assert(out@ =~= old(out)@ + r@.spec_encode());
    }
}

pub fn read_addr_record(buf: &[u8], pos: usize) -> (r: (AddrRecord, usize))
    requires
        pos + 30 <= buf@.len(),
    ensures
        spec_read_addr_record(buf@, pos as int) == Some((r.0@, r.1 as int)),
        r.0@.wf(),
        r.1 == pos + 30,
{
    let n = buf.len();
    let timestamp = read_u32_le(buf, pos);
    let (addr, p2) = read_net_addr(buf, pos + 4);
    (AddrRecord { timestamp, addr }, p2)
}

pub proof fn lemma_addr_record_round_trip(b: Seq<u8>, pos: int, r: AddrRecordV)
    requires
        r.wf(),
        0 <= pos,
        pos + 30 <= b.len(),
        b.subrange(pos, pos + 30) == r.spec_encode(),
    ensures
        r.spec_encode().len() == 30,
        spec_read_addr_record(b, pos) == Some((r, pos + 30)),
{
    lemma_auto_spec_u32_to_from_le_bytes();
    let ts = spec_u32_to_le_bytes(r.timestamp);
    assert(ts.len() == 4);
    lemma_net_addr_encode_len(r.addr);
    lemma_subrange_split(b, pos, ts, r.addr.spec_encode());
    lemma_net_addr_round_trip(b, pos + 4, r.addr);
    assert(spec_u32_from_le_bytes(ts) == r.timestamp);
}

/// A possibly empty, ordered list of timestamped endpoints.
#[derive(Clone, Debug, PartialEq, Eq)]
pub struct Addr {
    pub addrs: Vec<AddrRecord>,
}

pub struct AddrV {
    pub addrs: Seq<AddrRecordV>,
}

impl View for Addr {
    type V = AddrV;

    open spec fn view(&self) -> AddrV {
        AddrV { addrs: self.addrs@.map_values(|r: AddrRecord| r@) }
    }
}

/// The bytes of a record list, one record after another.
pub open spec fn spec_encode_addr_records(s: Seq<AddrRecordV>) -> Seq<u8>
    decreases s.len(),
{
    if s.len() == 0 {
        Seq::empty()
    } else {
        s[0].spec_encode() + spec_encode_addr_records(s.drop_first())
    }
}

pub proof fn lemma_encode_addr_records_push(s: Seq<AddrRecordV>, r: AddrRecordV)
    ensures
        spec_encode_addr_records(s.push(r)) == spec_encode_addr_records(s) + r.spec_encode(),
    decreases s.len(),
{
    if s.len() == 0 {
        assert(s.push(r).drop_first() =~= Seq::<AddrRecordV>::empty());
        assert(spec_encode_addr_records(Seq::<AddrRecordV>::empty()) =~= Seq::<u8>::empty());
        assert(spec_encode_addr_records(s.push(r)) == s.push(r)[0].spec_encode()
            + spec_encode_addr_records(s.push(r).drop_first()));
        assert(s.push(r)[0] == r);
        assert(r.spec_encode() + Seq::<u8>::empty() =~= r.spec_encode());
        assert(spec_encode_addr_records(s) + r.spec_encode() =~= r.spec_encode());
    } else {
        assert(s.push(r).drop_first() =~= s.drop_first().push(r));
        lemma_encode_addr_records_push(s.drop_first(), r);
        assert(spec_encode_addr_records(s.push(r)) == s[0].spec_encode() + (
        spec_encode_addr_records(s.drop_first()) + r.spec_encode()));
        assert(s[0].spec_encode() + (spec_encode_addr_records(s.drop_first()) + r.spec_encode())
            =~= (s[0].spec_encode() + spec_encode_addr_records(s.drop_first())) + r.spec_encode());
    }
}

impl AddrV {
    pub open spec fn wf(self) -> bool {
        forall|i: int| 0 <= i < self.addrs.len() ==> #[trigger] self.addrs[i].wf()
    }

    /// A count prefix, then each record's 30 bytes in order.
    pub open spec fn spec_encode(self) -> Seq<u8> {
        spec_compact_size(self.addrs.len() as u64) + spec_encode_addr_records(self.addrs)
    }
}

/// Reads `n` records one after another; `None` exactly when the buffer runs
/// out first.
pub open spec fn spec_read_addr_records(b: Seq<u8>, pos: int, n: nat) -> Option<
    (Seq<AddrRecordV>, int),
>
    decreases n,
{
    if n == 0 {
        Some((Seq::empty(), pos))
    } else {
        match spec_read_addr_record(b, pos) {
            None => None,
            Some((r, p2)) => match spec_read_addr_records(b, p2, (n - 1) as nat) {
                None => None,
                Some((rs, p3)) => Some((seq![r] + rs, p3)),
            },
        }
    }
}

/// Prepending already-read records to the outcome of reading the rest.
pub open spec fn compose_addr_parsed(acc: Seq<AddrRecordV>, r: Option<(Seq<AddrRecordV>, int)>) -> Option<
    (Seq<AddrRecordV>, int),
> {
    match r {
        None => None,
        Some((s, p)) => Some((acc + s, p)),
    }
}

/// The whole Addr payload: count, records, and nothing after them.
/// The count may not exceed the bytes that follow it, which bounds any
/// allocation by the input's own size.
pub open spec fn spec_decode_addr(b: Seq<u8>) -> Result<AddrV, ParseError> {
    match spec_read_compact_size(b, 0) {
        None => Err(ParseError::TruncatedInput),
        Some((n, p)) => if n > b.len() - p {
            Err(ParseError::MalformedField)
        } else {
            match spec_read_addr_records(b, p, n as nat) {
                None => Err(ParseError::TruncatedInput),
                Some((rs, p2)) => if p2 == b.len() {
                    Ok(AddrV { addrs: rs })
                } else {
                    Err(ParseError::TrailingBytes)
                },
            }
        },
    }
}

impl Addr {
    /// The empty address list.
    pub fn empty() -> (r: Addr)
        ensures
            r@.addrs.len() == 0,
            r@.wf(),
    {
        let r = Addr { addrs: Vec::new() };
        proof {
            assert(r@.addrs =~= Seq::<AddrRecordV>::empty());
        }
        r
    }

    pub fn new(addrs: Vec<AddrRecord>) -> (r: Addr)
        ensures
            r@.addrs == addrs@.map_values(|x: AddrRecord| x@),
    {
        Addr { addrs }
    }

    pub fn encode(&self) -> (r: Vec<u8>)
        requires
            self@.wf(),
        ensures
            r@ == self@.spec_encode(),
    {
        let ghost whole = self@.addrs;
        let mut out: Vec<u8> = Vec::new();
        write_compact_size(&mut out, self.addrs.len() as u64);
        let mut i: usize = 0;
        while i < self.addrs.len()
            invariant
                i <= self.addrs.len(),
                whole == self@.addrs,
                self@.wf(),
                whole.len() == self.addrs.len(),
                out@ == spec_compact_size(whole.len() as u64) + spec_encode_addr_records(
                    whole.take(i as int),
                ),
            decreases self.addrs.len() - i,
        {
            proof {
                assert(whole[i as int].wf());
                assert(whole.take(i as int + 1) =~= whole.take(i as int).push(whole[i as int]));
                lemma_encode_addr_records_push(whole.take(i as int), whole[i as int]);
            }
            encode_addr_record_into(&mut out, &self.addrs[i]);
            proof {
                assert(out@ =~= spec_compact_size(whole.len() as u64) + spec_encode_addr_records(
                    whole.take(i as int + 1),
                ));
            }
            i = i + 1;
        }
        proof {
            assert(whole.take(whole.len() as int) =~= whole);
        }
        out
    }

    pub fn decode(buf: &[u8]) -> (r: Result<Addr, ParseError>)
        ensures
            match r {
                Ok(a) => spec_decode_addr(buf@) == Ok::<AddrV, ParseError>(a@) && a@.wf(),
                Err(e) => spec_decode_addr(buf@) == Err::<AddrV, ParseError>(e),
            },
    {
        let n = buf.len();
        let (count, start) = match read_compact_size(buf, 0) {
            Ok(v) => v,
            Err(e) => {
                return Err(e);
            },
        };
        if count > (n - start) as u64 {
            return Err(ParseError::MalformedField);
        }
        let count_us = count as usize;
        let mut recs: Vec<AddrRecord> = Vec::new();
        let mut pos: usize = start;
        let mut i: usize = 0;
        while i < count_us
            invariant
                i <= count_us,
                count_us == count,
                start <= pos <= n,
                n == buf@.len(),
                spec_read_compact_size(buf@, 0) == Some((count, start as int)),
                count <= buf@.len() - start,
                recs@.len() == i,
                forall|j: int| 0 <= j < i ==> (#[trigger] recs@[j])@.wf(),
                compose_addr_parsed(
                    recs@.map_values(|x: AddrRecord| x@),
                    spec_read_addr_records(buf@, pos as int, (count_us - i) as nat),
                ) == spec_read_addr_records(buf@, start as int, count as nat),
            decreases count_us - i,
        {
            if n - pos < 30 {
                proof {
                    assert(spec_read_addr_record(buf@, pos as int) is None);
                    assert(spec_read_addr_records(buf@, pos as int, (count_us - i) as nat)
                        is None);
                    assert(compose_addr_parsed(
                        recs@.map_values(|x: AddrRecord| x@),
                        spec_read_addr_records(buf@, pos as int, (count_us - i) as nat),
                    ) is None);
                    assert(spec_read_addr_records(buf@, start as int, count as nat) is None);
                    assert(spec_decode_addr(buf@) == Err::<AddrV, ParseError>(
                        ParseError::TruncatedInput,
                    ));
                }
                return Err(ParseError::TruncatedInput);
            }
            let (rec, p2) = read_addr_record(buf, pos);
            proof {
                let accv = recs@.map_values(|x: AddrRecord| x@);
                let rest = spec_read_addr_records(buf@, p2 as int, (count_us - i - 1) as nat);
                assert(spec_read_addr_records(buf@, pos as int, (count_us - i) as nat)
                    == compose_addr_parsed(seq![rec@], rest)) by {
                    assert(spec_read_addr_record(buf@, pos as int) == Some((rec@, p2 as int)));
                }
                assert(recs@.push(rec).map_values(|x: AddrRecord| x@) =~= accv.push(rec@));
                if rest is Some {
                    let (rs, p3) = rest->Some_0;
                    assert(accv + (seq![rec@] + rs) =~= accv.push(rec@) + rs);
                }
            }
            recs.push(rec);
            pos = p2;
            i = i + 1;
        }
        proof {
            assert(spec_read_addr_records(buf@, pos as int, 0) == Some(
                (Seq::<AddrRecordV>::empty(), pos as int),
            ));
            let accv = recs@.map_values(|x: AddrRecord| x@);
            assert(accv + Seq::<AddrRecordV>::empty() =~= accv);
        }
        if pos != n {
            return Err(ParseError::TrailingBytes);
        }
        let a = Addr { addrs: recs };
        proof {
            assert(spec_decode_addr(buf@) == Ok::<AddrV, ParseError>(a@));
        }
        Ok(a)
    }
}

/// Reading back an encoded record list that sits at `pos` yields the same
/// records.
pub proof fn lemma_addr_records_round_trip(b: Seq<u8>, pos: int, s: Seq<AddrRecordV>)
    requires
        forall|i: int| 0 <= i < s.len() ==> #[trigger] s[i].wf(),
        0 <= pos,
        pos + spec_encode_addr_records(s).len() <= b.len(),
        b.subrange(pos, pos + spec_encode_addr_records(s).len()) == spec_encode_addr_records(s),
    ensures
        spec_read_addr_records(b, pos, s.len()) == Some(
            (s, pos + spec_encode_addr_records(s).len()),
        ),
    decreases s.len(),
{
    if s.len() == 0 {
        assert(spec_encode_addr_records(s).len() == 0);
    } else {
        let r = s[0];
        let rest = s.drop_first();
        let renc = r.spec_encode();
        let restenc = spec_encode_addr_records(rest);
        assert(r.wf());
        lemma_addr_record_encode_len(r);
        lemma_subrange_split(b, pos, renc, restenc);
        lemma_addr_record_round_trip(b, pos, r);
        assert(forall|i: int| 0 <= i < rest.len() ==> #[trigger] rest[i].wf());
        lemma_addr_records_round_trip(b, pos + 30, rest);
        assert(seq![r] + rest =~= s);
    }
}

/// Encoding then decoding a well-formed Addr yields it back.
pub proof fn lemma_addr_round_trip(a: AddrV)
    requires
        a.wf(),
        a.addrs.len() <= u64::MAX,
    ensures
        spec_decode_addr(a.spec_encode()) == Ok::<AddrV, ParseError>(a),
{
    let b = a.spec_encode();
    let cnt = spec_compact_size(a.addrs.len() as u64);
    let recs = spec_encode_addr_records(a.addrs);
    lemma_addr_records_len(a.addrs);
    assert(b.subrange(0, b.len() as int) =~= b);
    lemma_subrange_split(b, 0, cnt, recs);
    lemma_compact_size_round_trip(b, 0, a.addrs.len() as u64);
    assert(spec_read_compact_size(b, 0) == Some((a.addrs.len() as u64, cnt.len() as int)));
    assert(recs.len() >= a.addrs.len());
    lemma_addr_records_round_trip(b, cnt.len() as int, a.addrs);
}

/// Each record takes 30 bytes on the wire.
pub proof fn lemma_addr_records_len(s: Seq<AddrRecordV>)
    requires
        forall|i: int| 0 <= i < s.len() ==> #[trigger] s[i].wf(),
    ensures
        spec_encode_addr_records(s).len() == 30 * s.len(),
    decreases s.len(),
{
    if s.len() == 0 {
    } else {
        assert(s[0].wf());
        lemma_addr_record_encode_len(s[0]);
        assert(forall|i: int| 0 <= i < s.drop_first().len() ==> #[trigger] s.drop_first()[i].wf());
        lemma_addr_records_len(s.drop_first());
    }
}

} // verus!

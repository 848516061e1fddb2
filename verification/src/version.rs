use vstd::prelude::*;
use vstd::bytes::{
    spec_u32_from_le_bytes, spec_u32_to_le_bytes, spec_u64_from_le_bytes, spec_u64_to_le_bytes,
    lemma_auto_spec_u32_to_from_le_bytes, lemma_auto_spec_u64_to_from_le_bytes,
};
use crate::codec::{
    lemma_compact_size_round_trip, lemma_subrange_split, read_bytes, read_compact_size,
    read_u32_le, read_u64_le, spec_compact_size, spec_read_compact_size, write_bytes,
    write_compact_size, write_u32_le, write_u64_le, ParseError,
};
use crate::payload::{
    encode_net_addr_into, lemma_net_addr_encode_len, lemma_net_addr_round_trip, read_net_addr,
    spec_read_net_addr, NetAddr, NetAddrV,
};

verus! {

/// The protocol version this peer announces.
pub const PROTOCOL_VERSION: u32 = 170100;

/// The longest user-agent a Version body may carry.
pub const MAX_USER_AGENT_LEN: usize = 256;

/// The Version body: who is speaking, to whom, and with what capabilities.
#[derive(Clone, Debug, PartialEq, Eq)]
pub struct Version {
    pub version: u32,
    pub services: u64,
    pub timestamp: u64,
    pub addr_recv: NetAddr,
    pub addr_from: NetAddr,
    pub nonce: u64,
    pub user_agent: Vec<u8>,
    pub start_height: u32,
    pub relay: bool,
}

pub struct VersionV {
    pub version: u32,
    pub services: u64,
    pub timestamp: u64,
    pub addr_recv: NetAddrV,
    pub addr_from: NetAddrV,
    pub nonce: u64,
    pub user_agent: Seq<u8>,
    pub start_height: u32,
    pub relay: bool,
}

impl View for Version {
    type V = VersionV;

    open spec fn view(&self) -> VersionV {
        VersionV {
            version: self.version,
            services: self.services,
            timestamp: self.timestamp,
            addr_recv: self.addr_recv@,
            addr_from: self.addr_from@,
            nonce: self.nonce,
            user_agent: self.user_agent@,
            start_height: self.start_height,
            relay: self.relay,
        }
    }
}

impl VersionV {
    pub open spec fn wf(self) -> bool {
        &&& self.addr_recv.wf()
        &&& self.addr_from.wf()
        &&& self.user_agent.len() <= MAX_USER_AGENT_LEN
    }

    /// 80 fixed bytes, the user agent behind its count prefix, the best
    /// height, and the relay flag as one byte.
    pub open spec fn spec_encode(self) -> Seq<u8> {
        spec_u32_to_le_bytes(self.version) + spec_u64_to_le_bytes(self.services)
            + spec_u64_to_le_bytes(self.timestamp) + self.addr_recv.spec_encode()
            + self.addr_from.spec_encode() + spec_u64_to_le_bytes(self.nonce) + spec_compact_size(
            self.user_agent.len() as u64,
        ) + self.user_agent + spec_u32_to_le_bytes(self.start_height) + seq![
            if self.relay {
                1u8
            } else {
                0u8
            },
        ]
    }
}

/// The whole Version body: fixed fields, user agent, height, relay flag, and
/// nothing after them. A user agent over the bound, or a relay byte other
/// than zero or one, is a malformed field.
pub open spec fn spec_decode_version(b: Seq<u8>) -> Result<VersionV, ParseError> {
    if b.len() < 80 {
        Err(ParseError::TruncatedInput)
    } else {
        match spec_read_compact_size(b, 80) {
            None => Err(ParseError::TruncatedInput),
            Some((ul, p)) => if ul > MAX_USER_AGENT_LEN {
                Err(ParseError::MalformedField)
            } else if p + ul + 5 > b.len() {
                Err(ParseError::TruncatedInput)
            } else if p + ul + 5 < b.len() {
                Err(ParseError::TrailingBytes)
            } else if b[p + ul + 4] != 0 && b[p + ul + 4] != 1 {
                Err(ParseError::MalformedField)
            } else {
                Ok(
                    VersionV {
                        version: spec_u32_from_le_bytes(b.subrange(0, 4)),
                        services: spec_u64_from_le_bytes(b.subrange(4, 12)),
                        timestamp: spec_u64_from_le_bytes(b.subrange(12, 20)),
                        addr_recv: spec_read_net_addr(b, 20)->Some_0.0,
                        addr_from: spec_read_net_addr(b, 46)->Some_0.0,
                        nonce: spec_u64_from_le_bytes(b.subrange(72, 80)),
                        user_agent: b.subrange(p, p + ul),
                        start_height: spec_u32_from_le_bytes(
                            b.subrange(p + ul, p + ul + 4),
                        ),
                        relay: b[p + ul + 4] == 1,
                    },
                )
            },
        }
    }
}

impl Version {
    /// A canonical Version body for a handshake: this peer's protocol
    /// version, the two endpoints, and the caller's nonce and clock reading.
    pub fn new(addr_recv: NetAddr, addr_from: NetAddr, nonce: u64, timestamp: u64) -> (r: Version)
        requires
            addr_recv@.wf(),
            addr_from@.wf(),
        ensures
            r@.wf(),
            r@.version == PROTOCOL_VERSION,
            r@.services == 1,
            r@.timestamp == timestamp,
            r@.addr_recv == addr_recv@,
            r@.addr_from == addr_from@,
            r@.nonce == nonce,
            r@.user_agent.len() == 0,
            r@.start_height == 0,
            r@.relay == false,
    {
        Version {
            version: PROTOCOL_VERSION,
            services: 1,
            timestamp,
            addr_recv,
            addr_from,
            nonce,
            user_agent: Vec::new(),
            start_height: 0,
            relay: false,
        }
    }

    pub fn encode(&self) -> (r: Vec<u8>)
        requires
            self@.wf(),
        ensures
            r@ == self@.spec_encode(),
    {
        let mut out: Vec<u8> = Vec::new();
        write_u32_le(&mut out, self.version);
        write_u64_le(&mut out, self.services);
        write_u64_le(&mut out, self.timestamp);
        encode_net_addr_into(&mut out, &self.addr_recv);
        encode_net_addr_into(&mut out, &self.addr_from);
        write_u64_le(&mut out, self.nonce);
        write_compact_size(&mut out, self.user_agent.len() as u64);
        write_bytes(&mut out, self.user_agent.as_slice());
        write_u32_le(&mut out, self.start_height);
        if self.relay {
            out.push(1u8);
        } else {
            out.push(0u8);
        }
        proof {
            assert(out@ =~= self@.spec_encode());
        }
        out
    }

    pub fn decode(buf: &[u8]) -> (r: Result<Version, ParseError>)
        ensures
            match r {
                Ok(v) => spec_decode_version(buf@) == Ok::<VersionV, ParseError>(v@) && v@.wf(),
                Err(e) => spec_decode_version(buf@) == Err::<VersionV, ParseError>(e),
            },
    {
        let n = buf.len();
        if n < 80 {
            return Err(ParseError::TruncatedInput);
        }
        let version = read_u32_le(buf, 0);
        let services = read_u64_le(buf, 4);
        let timestamp = read_u64_le(buf, 12);
        let (addr_recv, _) = read_net_addr(buf, 20);
        let (addr_from, _) = read_net_addr(buf, 46);
        let nonce = read_u64_le(buf, 72);
        let (ul, p) = match read_compact_size(buf, 80) {
            Ok(v) => v,
            Err(e) => {
                return Err(e);
            },
        };
        if ul > MAX_USER_AGENT_LEN as u64 {
            return Err(ParseError::MalformedField);
        }
        let ul_us = ul as usize;
        if n - p < ul_us || n - p - ul_us < 5 {
            return Err(ParseError::TruncatedInput);
        }
        if n - p - ul_us > 5 {
            return Err(ParseError::TrailingBytes);
        }
        let user_agent = read_bytes(buf, p, ul_us);
        let start_height = read_u32_le(buf, p + ul_us);
        let relay_byte = *vstd::slice::slice_index_get(buf, p + ul_us + 4);
        if relay_byte != 0 && relay_byte != 1 {
            return Err(ParseError::MalformedField);
        }
        let v = Version {
            version,
            services,
            timestamp,
            addr_recv,
            addr_from,
            nonce,
            user_agent,
            start_height,
            relay: relay_byte == 1,
        };
        Ok(v)
    }
}

/// Encoding then decoding a well-formed Version yields it back.
pub proof fn lemma_version_round_trip(v: VersionV)
    requires
        v.wf(),
    ensures
        spec_decode_version(v.spec_encode()) == Ok::<VersionV, ParseError>(v),
{
    lemma_auto_spec_u32_to_from_le_bytes();
    lemma_auto_spec_u64_to_from_le_bytes();
    let b = v.spec_encode();
    let e1 = spec_u32_to_le_bytes(v.version);
    let e2 = spec_u64_to_le_bytes(v.services);
    let e3 = spec_u64_to_le_bytes(v.timestamp);
    let e4 = v.addr_recv.spec_encode();
    let e5 = v.addr_from.spec_encode();
    let e6 = spec_u64_to_le_bytes(v.nonce);
    let e7 = spec_compact_size(v.user_agent.len() as u64);
    let e8 = v.user_agent;
    let e9 = spec_u32_to_le_bytes(v.start_height);
    let e10 = seq![
        if v.relay {
            1u8
        } else {
            0u8
        },
    ];
    assert(e1.len() == 4);
    assert(e2.len() == 8);
    assert(e3.len() == 8);
    lemma_net_addr_encode_len(v.addr_recv);
    lemma_net_addr_encode_len(v.addr_from);
    assert(e6.len() == 8);
    assert(e9.len() == 4);
    let l1 = e1 + e2;
    let l2 = l1 + e3;
    let l3 = l2 + e4;
    let l4 = l3 + e5;
    let l5 = l4 + e6;
    let l6 = l5 + e7;
    let l7 = l6 + e8;
    let l8 = l7 + e9;
    let enc = l8 + e10;
    assert(enc == b);
    assert(b.subrange(0, b.len() as int) =~= b);
    lemma_subrange_split(b, 0, l8, e10);
    lemma_subrange_split(b, 0, l7, e9);
    lemma_subrange_split(b, 0, l6, e8);
    lemma_subrange_split(b, 0, l5, e7);
    lemma_subrange_split(b, 0, l4, e6);
    lemma_subrange_split(b, 0, l3, e5);
    lemma_subrange_split(b, 0, l2, e4);
    lemma_subrange_split(b, 0, l1, e3);
    lemma_subrange_split(b, 0, e1, e2);
    lemma_compact_size_round_trip(b, 80, v.user_agent.len() as u64);
    lemma_net_addr_round_trip(b, 20, v.addr_recv);
    lemma_net_addr_round_trip(b, 46, v.addr_from);
    let p: int = 80 + e7.len() as int;
    let ul: int = v.user_agent.len() as int;
    assert(b[p + ul + 4] == e10[0]);
    let d = spec_decode_version(b)->Ok_0;
    assert(d.version == v.version);
    assert(d.services == v.services);
    assert(d.timestamp == v.timestamp);
    assert(d.addr_recv == v.addr_recv);
    assert(d.addr_from == v.addr_from);
    assert(d.nonce == v.nonce);
    assert(d.user_agent == v.user_agent);
    assert(d.start_height == v.start_height);
    assert(d.relay == v.relay);
}

} // verus!

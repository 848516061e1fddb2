use vstd::prelude::*;
use vstd::bytes::{spec_u32_from_le_bytes, spec_u32_to_le_bytes, lemma_auto_spec_u32_to_from_le_bytes};
use crate::codec::{bytes_eq, lemma_subrange_split, read_bytes, read_u32_le, write_bytes, write_u32_le, ParseError};
use crate::checksum::{checksum, spec_checksum};
use crate::MAX_MESSAGE_LEN;

verus! {

/// The network's 4-byte magic that opens every frame.
pub open spec fn spec_magic() -> Seq<u8> {
    seq![36u8, 233u8, 39u8, 100u8]
}

pub fn magic() -> (r: Vec<u8>)
    ensures
        r@ == spec_magic(),
        r@.len() == 4,
{
    let v: Vec<u8> = vec![36u8, 233u8, 39u8, 100u8];
    proof {
        assert(v@ =~= spec_magic());
    }
    v
}

/// The fixed 24-byte frame header: magic, 12-byte command identifier,
/// little-endian payload length, and payload checksum, all held verbatim.
#[derive(Clone, Debug, PartialEq, Eq)]
pub struct MessageHeader {
    pub magic: Vec<u8>,
    pub command: Vec<u8>,
    pub length: u32,
    pub checksum: Vec<u8>,
}

/// The mathematical content of a header: its fields as byte strings.
pub struct HeaderView {
    pub magic: Seq<u8>,
    pub command: Seq<u8>,
    pub length: u32,
    pub checksum: Seq<u8>,
}

impl View for MessageHeader {
    type V = HeaderView;

    open spec fn view(&self) -> HeaderView {
        HeaderView {
            magic: self.magic@,
            command: self.command@,
            length: self.length,
            checksum: self.checksum@,
        }
    }
}

impl HeaderView {
    /// The field widths the wire format fixes.
    pub open spec fn wf(self) -> bool {
        &&& self.magic.len() == 4
        &&& self.command.len() == 12
        &&& self.checksum.len() == 4
    }

    /// The 24 bytes this header puts on the wire.
    pub open spec fn spec_encode(self) -> Seq<u8> {
        self.magic + self.command + spec_u32_to_le_bytes(self.length) + self.checksum
    }
}

/// The header any 24-byte prefix decodes to: every field is read verbatim,
/// so decoding is total on buffers of at least 24 bytes.
pub open spec fn spec_decode_header(b: Seq<u8>) -> Option<HeaderView> {
    if b.len() >= 24 {
        Some(
            HeaderView {
                magic: b.subrange(0, 4),
                command: b.subrange(4, 16),
                length: spec_u32_from_le_bytes(b.subrange(16, 20)),
                checksum: b.subrange(20, 24),
            },
        )
    } else {
        None
    }
}

impl MessageHeader {
    /// Builds the header for a payload: this network's magic, the given
    /// command, the payload's length and its checksum.
    pub fn new(command: &Vec<u8>, payload: &[u8]) -> (h: MessageHeader)
        requires
            command@.len() == 12,
            payload@.len() <= u32::MAX,
        ensures
            h@.wf(),
            h@.magic == spec_magic(),
            h@.command == command@,
            h@.length == payload@.len(),
            h@.checksum == spec_checksum(payload@),
    {
        MessageHeader {
            magic: magic(),
            command: command.clone(),
            length: payload.len() as u32,
            checksum: checksum(payload),
        }
    }

    pub fn encode(&self) -> (r: Vec<u8>)
        requires
            self@.wf(),
        ensures
            r@ == self@.spec_encode(),
            r@.len() == 24,
    {
        proof {
            lemma_auto_spec_u32_to_from_le_bytes();
            assert(spec_u32_to_le_bytes(self.length).len() == 4);
        }
        let mut out: Vec<u8> = Vec::new();
        write_bytes(&mut out, self.magic.as_slice());
        write_bytes(&mut out, self.command.as_slice());
        write_u32_le(&mut out, self.length);
        write_bytes(&mut out, self.checksum.as_slice());
        out
    }
}

/// Frames a payload under a command: the 24 header bytes that `decode_header`
/// reads back verbatim.
pub fn encode_header(command: &Vec<u8>, payload: &[u8]) -> (r: Vec<u8>)
    requires
        command@.len() == 12,
        payload@.len() <= u32::MAX,
    ensures
        r@.len() == 24,
        r@ == (HeaderView {
            magic: spec_magic(),
            command: command@,
            length: payload@.len() as u32,
            checksum: spec_checksum(payload@),
        }).spec_encode(),
{
    MessageHeader::new(command, payload).encode()
}

/// Decodes the fixed header. Fails with `TruncatedInput` exactly when fewer
/// than 24 bytes are available; any longer buffer decodes, whatever it holds.
pub fn decode_header(buf: &[u8]) -> (r: Result<MessageHeader, ParseError>)
    ensures
        buf@.len() < 24 <==> r == Err::<MessageHeader, ParseError>(ParseError::TruncatedInput),
        buf@.len() >= 24 ==> (r matches Ok(h) && spec_decode_header(buf@) == Some(h@) && h@.wf()),
{
    if buf.len() < 24 {
        return Err(ParseError::TruncatedInput);
    }
    let h = MessageHeader {
        magic: read_bytes(buf, 0, 4),
        command: read_bytes(buf, 4, 12),
        length: read_u32_le(buf, 16),
        checksum: read_bytes(buf, 20, 4),
    };
    Ok(h)
}

/// Validity checks the caller makes before reading a payload: the magic must
/// be this network's, and the claimed length must stay under the frame bound.
/// `PayloadTooLarge` is decided from the header alone, before any payload
/// byte is read.
pub fn check_header(h: &MessageHeader) -> (r: Result<(), ParseError>)
    ensures
        r is Ok <==> (h@.magic == spec_magic() && h@.length <= MAX_MESSAGE_LEN),
        r == Err::<(), ParseError>(ParseError::HeaderInvalid) <==> h@.magic != spec_magic(),
        r == Err::<(), ParseError>(ParseError::PayloadTooLarge) <==> (h@.magic == spec_magic()
            && h@.length > MAX_MESSAGE_LEN),
{
    let m = magic();
    if !bytes_eq(h.magic.as_slice(), m.as_slice()) {
        Err(ParseError::HeaderInvalid)
    } else if h.length > MAX_MESSAGE_LEN {
        Err(ParseError::PayloadTooLarge)
    } else {
        Ok(())
    }
}

/// Encoding then decoding a well-formed header gives back its fields.
pub proof fn lemma_header_round_trip(h: HeaderView)
    requires
        h.wf(),
    ensures
        h.spec_encode().len() == 24,
        spec_decode_header(h.spec_encode()) == Some(h),
{
    lemma_auto_spec_u32_to_from_le_bytes();
    let b = h.spec_encode();
    let c = h.command;
    let l = spec_u32_to_le_bytes(h.length);
    let ck = h.checksum;
    assert(l.len() == 4);
    assert(b.len() == 24);
    assert(b.subrange(0, 24) =~= b);
    assert(b =~= h.magic + (c + l + ck));
    lemma_subrange_split(b, 0, h.magic, c + l + ck);
    assert(c + l + ck =~= c + (l + ck));
    lemma_subrange_split(b, 4, c, l + ck);
    lemma_subrange_split(b, 16, l, ck);
    assert(spec_u32_from_le_bytes(l) == h.length);
    let d = spec_decode_header(b)->Some_0;
    assert(d.magic == h.magic);
    assert(d.command == h.command);
    assert(d.length == h.length);
    assert(d.checksum == h.checksum);
}

/// A buffer that starts with a well-formed header's 24 bytes decodes to that
/// header, whatever follows.
pub proof fn lemma_header_decode_at(b: Seq<u8>, h: HeaderView)
    requires
        h.wf(),
        b.len() >= 24,
        b.subrange(0, 24) == h.spec_encode(),
    ensures
        spec_decode_header(b) == Some(h),
{
    lemma_header_round_trip(h);
    let e = h.spec_encode();
    assert(b.subrange(0, 4) =~= e.subrange(0, 4));
    assert(b.subrange(4, 16) =~= e.subrange(4, 16));
    assert(b.subrange(16, 20) =~= e.subrange(16, 20));
    assert(b.subrange(20, 24) =~= e.subrange(20, 24));
    let d = spec_decode_header(b)->Some_0;
    let de = spec_decode_header(e)->Some_0;
    assert(d.magic == de.magic);
    assert(d.command == de.command);
    assert(d.length == de.length);
    assert(d.checksum == de.checksum);
}

} // verus!

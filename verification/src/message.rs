use vstd::prelude::*;
use vstd::slice::{slice_subrange, slice_to_vec};
use crate::checksum::{checksum, spec_checksum};
use crate::codec::{bytes_eq, lemma_subrange_split, ParseError};
use crate::command::{command_bytes, parse_command, spec_command_bytes, spec_parse_command, Command};
use crate::header::{
    check_header, decode_header, spec_decode_header, spec_magic, HeaderView, MessageHeader,
};
use crate::payload::{
    decode_nonce, encode_nonce_into, lemma_nonce_round_trip, spec_decode_nonce, Addr, AddrV,
    lemma_addr_round_trip, spec_decode_addr, Nonce,
};
use crate::block::{lemma_headers_round_trip, spec_decode_headers, Headers, HeadersV};
use crate::MAX_MESSAGE_LEN;
use crate::version::{lemma_version_round_trip, spec_decode_version, Version, VersionV};

verus! {

/// One of every frame shape the protocol knows, plus an opaque variant for
/// commands it does not: an unrecognized command is a representable message,
/// never a parse failure by itself.
#[derive(Debug, PartialEq, Eq)]
pub enum Message {
    Version(Version),
    Verack,
    Ping(Nonce),
    Pong(Nonce),
    GetAddr,
    MemPool,
    Addr(Addr),
    Headers(Headers),
    GetHeaders(Vec<u8>),
    GetBlocks(Vec<u8>),
    GetData(Vec<u8>),
    Inv(Vec<u8>),
    NotFound(Vec<u8>),
    Block(Vec<u8>),
    Tx(Vec<u8>),
    Reject(Vec<u8>),
    Unknown { command: Vec<u8>, body: Vec<u8> },
}

pub enum MessageV {
    Version(VersionV),
    Verack,
    Ping(Nonce),
    Pong(Nonce),
    GetAddr,
    MemPool,
    Addr(AddrV),
    Headers(HeadersV),
    GetHeaders(Seq<u8>),
    GetBlocks(Seq<u8>),
    GetData(Seq<u8>),
    Inv(Seq<u8>),
    NotFound(Seq<u8>),
    Block(Seq<u8>),
    Tx(Seq<u8>),
    Reject(Seq<u8>),
    Unknown { command: Seq<u8>, body: Seq<u8> },
}

impl View for Message {
    type V = MessageV;

    open spec fn view(&self) -> MessageV {
        match self {
            Message::Version(v) => MessageV::Version(v@),
            Message::Verack => MessageV::Verack,
            Message::Ping(n) => MessageV::Ping(*n),
            Message::Pong(n) => MessageV::Pong(*n),
            Message::GetAddr => MessageV::GetAddr,
            Message::MemPool => MessageV::MemPool,
            Message::Addr(a) => MessageV::Addr(a@),
            Message::Headers(h) => MessageV::Headers(h@),
            Message::GetHeaders(b) => MessageV::GetHeaders(b@),
            Message::GetBlocks(b) => MessageV::GetBlocks(b@),
            Message::GetData(b) => MessageV::GetData(b@),
            Message::Inv(b) => MessageV::Inv(b@),
            Message::NotFound(b) => MessageV::NotFound(b@),
            Message::Block(b) => MessageV::Block(b@),
            Message::Tx(b) => MessageV::Tx(b@),
            Message::Reject(b) => MessageV::Reject(b@),
            Message::Unknown { command, body } => MessageV::Unknown {
                command: command@,
                body: body@,
            },
        }
    }
}

impl MessageV {
    pub open spec fn wf(self) -> bool {
        match self {
            MessageV::Version(v) => v.wf(),
            MessageV::Addr(a) => a.wf() && a.addrs.len() <= u64::MAX,
            MessageV::Headers(h) => h.wf() && h.headers.len() <= u64::MAX,
            MessageV::Unknown { command, body } => command.len() == 12 && spec_parse_command(
                command,
            ) is None,
            _ => true,
        }
    }

    /// The 12-byte identifier this message travels under.
    pub open spec fn spec_command(self) -> Seq<u8> {
        match self {
            MessageV::Version(_) => spec_command_bytes(Command::Version),
            MessageV::Verack => spec_command_bytes(Command::Verack),
            MessageV::Ping(_) => spec_command_bytes(Command::Ping),
            MessageV::Pong(_) => spec_command_bytes(Command::Pong),
            MessageV::GetAddr => spec_command_bytes(Command::GetAddr),
            MessageV::MemPool => spec_command_bytes(Command::MemPool),
            MessageV::Addr(_) => spec_command_bytes(Command::Addr),
            MessageV::Headers(_) => spec_command_bytes(Command::Headers),
            MessageV::GetHeaders(_) => spec_command_bytes(Command::GetHeaders),
            MessageV::GetBlocks(_) => spec_command_bytes(Command::GetBlocks),
            MessageV::GetData(_) => spec_command_bytes(Command::GetData),
            MessageV::Inv(_) => spec_command_bytes(Command::Inv),
            MessageV::NotFound(_) => spec_command_bytes(Command::NotFound),
            MessageV::Block(_) => spec_command_bytes(Command::Block),
            MessageV::Tx(_) => spec_command_bytes(Command::Tx),
            MessageV::Reject(_) => spec_command_bytes(Command::Reject),
            MessageV::Unknown { command, .. } => command,
        }
    }

    /// The payload bytes this message puts on the wire.
    pub open spec fn spec_payload(self) -> Seq<u8> {
        match self {
            MessageV::Version(v) => v.spec_encode(),
            MessageV::Verack => Seq::empty(),
            MessageV::Ping(n) => n.spec_encode(),
            MessageV::Pong(n) => n.spec_encode(),
            MessageV::GetAddr => Seq::empty(),
            MessageV::MemPool => Seq::empty(),
            MessageV::Addr(a) => a.spec_encode(),
            MessageV::Headers(h) => h.spec_encode(),
            MessageV::GetHeaders(b) => b,
            MessageV::GetBlocks(b) => b,
            MessageV::GetData(b) => b,
            MessageV::Inv(b) => b,
            MessageV::NotFound(b) => b,
            MessageV::Block(b) => b,
            MessageV::Tx(b) => b,
            MessageV::Reject(b) => b,
            MessageV::Unknown { body, .. } => body,
        }
    }
}

/// What payload bytes mean under a given command: the typed bodies decode
/// strictly, the framed-but-opaque bodies are taken verbatim, and an unknown
/// command wraps its bytes unread.
pub open spec fn spec_dispatch(cmd: Seq<u8>, payload: Seq<u8>) -> Result<MessageV, ParseError> {
    match spec_parse_command(cmd) {
        Some(Command::Version) => match spec_decode_version(payload) {
            Ok(v) => Ok(MessageV::Version(v)),
            Err(e) => Err(e),
        },
        Some(Command::Verack) => if payload.len() == 0 {
            Ok(MessageV::Verack)
        } else {
            Err(ParseError::TrailingBytes)
        },
        Some(Command::Ping) => match spec_decode_nonce(payload) {
            Ok(n) => Ok(MessageV::Ping(n)),
            Err(e) => Err(e),
        },
        Some(Command::Pong) => match spec_decode_nonce(payload) {
            Ok(n) => Ok(MessageV::Pong(n)),
            Err(e) => Err(e),
        },
        Some(Command::GetAddr) => if payload.len() == 0 {
            Ok(MessageV::GetAddr)
        } else {
            Err(ParseError::TrailingBytes)
        },
        Some(Command::MemPool) => if payload.len() == 0 {
            Ok(MessageV::MemPool)
        } else {
            Err(ParseError::TrailingBytes)
        },
        Some(Command::Addr) => match spec_decode_addr(payload) {
            Ok(a) => Ok(MessageV::Addr(a)),
            Err(e) => Err(e),
        },
        Some(Command::Headers) => match spec_decode_headers(payload) {
            Ok(h) => Ok(MessageV::Headers(h)),
            Err(e) => Err(e),
        },
        Some(Command::GetHeaders) => Ok(MessageV::GetHeaders(payload)),
        Some(Command::GetBlocks) => Ok(MessageV::GetBlocks(payload)),
        Some(Command::GetData) => Ok(MessageV::GetData(payload)),
        Some(Command::Inv) => Ok(MessageV::Inv(payload)),
        Some(Command::NotFound) => Ok(MessageV::NotFound(payload)),
        Some(Command::Block) => Ok(MessageV::Block(payload)),
        Some(Command::Tx) => Ok(MessageV::Tx(payload)),
        Some(Command::Reject) => Ok(MessageV::Reject(payload)),
        None => Ok(MessageV::Unknown { command: cmd, body: payload }),
    }
}

impl Message {
    /// The 12-byte identifier this message travels under.
    pub fn command(&self) -> (r: Vec<u8>)
        requires
            self@.wf(),
        ensures
            r@ == self@.spec_command(),
            r@.len() == 12,
    {
        match self {
            Message::Version(_) => command_bytes(Command::Version),
            Message::Verack => command_bytes(Command::Verack),
            Message::Ping(_) => command_bytes(Command::Ping),
            Message::Pong(_) => command_bytes(Command::Pong),
            Message::GetAddr => command_bytes(Command::GetAddr),
            Message::MemPool => command_bytes(Command::MemPool),
            Message::Addr(_) => command_bytes(Command::Addr),
            Message::Headers(_) => command_bytes(Command::Headers),
            Message::GetHeaders(_) => command_bytes(Command::GetHeaders),
            Message::GetBlocks(_) => command_bytes(Command::GetBlocks),
            Message::GetData(_) => command_bytes(Command::GetData),
            Message::Inv(_) => command_bytes(Command::Inv),
            Message::NotFound(_) => command_bytes(Command::NotFound),
            Message::Block(_) => command_bytes(Command::Block),
            Message::Tx(_) => command_bytes(Command::Tx),
            Message::Reject(_) => command_bytes(Command::Reject),
            Message::Unknown { command, .. } => slice_to_vec(command.as_slice()),
        }
    }

    /// Encodes this message's body.
    pub fn payload(&self) -> (r: Vec<u8>)
        requires
            self@.wf(),
        ensures
            r@ == self@.spec_payload(),
    {
        match self {
            Message::Version(v) => v.encode(),
            Message::Verack => Vec::new(),
            Message::Ping(n) => {
                let mut out: Vec<u8> = Vec::new();
                encode_nonce_into(&mut out, n);
                out
            },
            Message::Pong(n) => {
                let mut out: Vec<u8> = Vec::new();
                encode_nonce_into(&mut out, n);
                out
            },
            Message::GetAddr => Vec::new(),
            Message::MemPool => Vec::new(),
            Message::Addr(a) => a.encode(),
            Message::Headers(h) => h.encode(),
            Message::GetHeaders(b) => slice_to_vec(b.as_slice()),
            Message::GetBlocks(b) => slice_to_vec(b.as_slice()),
            Message::GetData(b) => slice_to_vec(b.as_slice()),
            Message::Inv(b) => slice_to_vec(b.as_slice()),
            Message::NotFound(b) => slice_to_vec(b.as_slice()),
            Message::Block(b) => slice_to_vec(b.as_slice()),
            Message::Tx(b) => slice_to_vec(b.as_slice()),
            Message::Reject(b) => slice_to_vec(b.as_slice()),
            Message::Unknown { body, .. } => slice_to_vec(body.as_slice()),
        }
    }
}

/// Decodes payload bytes under a command identifier.
pub fn dispatch_body(cmd: &Vec<u8>, payload: &[u8]) -> (r: Result<Message, ParseError>)
    requires
        cmd@.len() == 12,
    ensures
        match r {
            Ok(m) => spec_dispatch(cmd@, payload@) == Ok::<MessageV, ParseError>(m@) && m@.wf(),
            Err(e) => spec_dispatch(cmd@, payload@) == Err::<MessageV, ParseError>(e),
        },
{
    match parse_command(cmd.as_slice()) {
        Some(Command::Version) => match Version::decode(payload) {
            Ok(v) => Ok(Message::Version(v)),
            Err(e) => Err(e),
        },
        Some(Command::Verack) => if payload.len() == 0 {
            Ok(Message::Verack)
        } else {
            Err(ParseError::TrailingBytes)
        },
        Some(Command::Ping) => match decode_nonce(payload) {
            Ok(n) => Ok(Message::Ping(n)),
            Err(e) => Err(e),
        },
        Some(Command::Pong) => match decode_nonce(payload) {
            Ok(n) => Ok(Message::Pong(n)),
            Err(e) => Err(e),
        },
        Some(Command::GetAddr) => if payload.len() == 0 {
            Ok(Message::GetAddr)
        } else {
            Err(ParseError::TrailingBytes)
        },
        Some(Command::MemPool) => if payload.len() == 0 {
            Ok(Message::MemPool)
        } else {
            Err(ParseError::TrailingBytes)
        },
        Some(Command::Addr) => match Addr::decode(payload) {
            Ok(a) => {
                proof {
                    vstd::std_specs::vec::axiom_spec_len(&a.addrs);
                    assert(a@.addrs.len() == a.addrs@.len());
                }
                Ok(Message::Addr(a))
            },
            Err(e) => Err(e),
        },
        Some(Command::Headers) => match Headers::decode(payload) {
            Ok(h) => {
                proof {
                    vstd::std_specs::vec::axiom_spec_len(&h.headers);
                    assert(h@.headers.len() == h.headers@.len());
                }
                Ok(Message::Headers(h))
            },
            Err(e) => Err(e),
        },
        Some(Command::GetHeaders) => Ok(Message::GetHeaders(slice_to_vec(payload))),
        Some(Command::GetBlocks) => Ok(Message::GetBlocks(slice_to_vec(payload))),
        Some(Command::GetData) => Ok(Message::GetData(slice_to_vec(payload))),
        Some(Command::Inv) => Ok(Message::Inv(slice_to_vec(payload))),
        Some(Command::NotFound) => Ok(Message::NotFound(slice_to_vec(payload))),
        Some(Command::Block) => Ok(Message::Block(slice_to_vec(payload))),
        Some(Command::Tx) => Ok(Message::Tx(slice_to_vec(payload))),
        Some(Command::Reject) => Ok(Message::Reject(slice_to_vec(payload))),
        None => Ok(
            Message::Unknown { command: slice_to_vec(cmd.as_slice()), body: slice_to_vec(payload) },
        ),
    }
}

/// Parses a frame body once its header is in hand: the checksum must match
/// the payload before any dispatch by command happens.
pub fn parse_message(header: &MessageHeader, payload: &[u8]) -> (r: Result<Message, ParseError>)
    requires
        header@.wf(),
        payload@.len() == header@.length,
    ensures
        r == Err::<Message, ParseError>(ParseError::ChecksumMismatch) <==> header@.checksum
            != spec_checksum(payload@),
        header@.checksum == spec_checksum(payload@) ==> match r {
            Ok(m) => spec_dispatch(header@.command, payload@) == Ok::<MessageV, ParseError>(m@)
                && m@.wf(),
            Err(e) => spec_dispatch(header@.command, payload@) == Err::<MessageV, ParseError>(e)
                && e != ParseError::ChecksumMismatch,
        },
{
    let want = checksum(payload);
    if !bytes_eq(header.checksum.as_slice(), want.as_slice()) {
        return Err(ParseError::ChecksumMismatch);
    }
    let r = dispatch_body(&header.command, payload);
    proof {
        let rr = r;
        if rr is Err {
            assert(spec_dispatch(header@.command, payload@) == Err::<
                MessageV,
                ParseError,
            >(rr->Err_0));
            assert(spec_dispatch_never_checksum_mismatch(header@.command, payload@));
        }
    }
    r
}

/// Dispatch reports structure errors, never a checksum one; the checksum is
/// the frame layer's to enforce.
pub open spec fn spec_dispatch_never_checksum_mismatch(cmd: Seq<u8>, payload: Seq<u8>) -> bool {
    spec_dispatch(cmd, payload) != Err::<MessageV, ParseError>(ParseError::ChecksumMismatch)
}

pub proof fn lemma_dispatch_never_checksum_mismatch(cmd: Seq<u8>, payload: Seq<u8>)
    ensures
        spec_dispatch_never_checksum_mismatch(cmd, payload),
{
}

/// The full frame a message puts on the wire: its 24-byte header, then its
/// payload.
pub open spec fn spec_frame(m: MessageV) -> Seq<u8> {
    (HeaderView {
        magic: spec_magic(),
        command: m.spec_command(),
        length: m.spec_payload().len() as u32,
        checksum: spec_checksum(m.spec_payload()),
    }).spec_encode() + m.spec_payload()
}

impl Message {
    /// Encodes one whole frame: header, checksum and payload, ready to be
    /// written to a transport in one piece.
    pub fn to_bytes(&self) -> (r: Vec<u8>)
        requires
            self@.wf(),
            self@.spec_payload().len() <= MAX_MESSAGE_LEN,
        ensures
            r@ == spec_frame(self@),
    {
        let payload = self.payload();
        let cmd = self.command();
        let header = MessageHeader::new(&cmd, payload.as_slice());
        let mut out = header.encode();
        let mut body = payload;
        out.append(&mut body);
        out
    }
}

/// One whole frame held in a buffer: the header is read and checked, the
/// payload length must match what the header claims exactly, the checksum
/// must match the payload, and the body then decodes under the command.
pub open spec fn spec_read_message(b: Seq<u8>) -> Result<MessageV, ParseError> {
    match spec_decode_header(b) {
        None => Err(ParseError::TruncatedInput),
        Some(h) => if h.magic != spec_magic() {
            Err(ParseError::HeaderInvalid)
        } else if h.length > MAX_MESSAGE_LEN {
            Err(ParseError::PayloadTooLarge)
        } else if b.len() - 24 < h.length {
            Err(ParseError::TruncatedInput)
        } else if b.len() - 24 > h.length {
            Err(ParseError::TrailingBytes)
        } else if h.checksum != spec_checksum(b.subrange(24, 24 + h.length)) {
            Err(ParseError::ChecksumMismatch)
        } else {
            spec_dispatch(h.command, b.subrange(24, 24 + h.length))
        },
    }
}

/// Reads exactly one frame from a buffer. The header's magic and size bound
/// are checked before the payload is touched; the checksum before any
/// command dispatch.
pub fn read_message_from_bytes(buf: &[u8]) -> (r: Result<Message, ParseError>)
    ensures
        match r {
            Ok(m) => spec_read_message(buf@) == Ok::<MessageV, ParseError>(m@) && m@.wf(),
            Err(e) => spec_read_message(buf@) == Err::<MessageV, ParseError>(e),
        },
{
    let n = buf.len();
    let header = match decode_header(buf) {
        Ok(h) => h,
        Err(e) => {
            return Err(e);
        },
    };
    if let Err(e) = check_header(&header) {
        return Err(e);
    }
    let len = header.length as usize;
    if n - 24 < len {
        return Err(ParseError::TruncatedInput);
    }
    if n - 24 > len {
        return Err(ParseError::TrailingBytes);
    }
    let payload = slice_subrange(buf, 24, 24 + len);
    parse_message(&header, payload)
}

/// No two commands share their 12 wire bytes.
pub proof fn lemma_commands_distinct(a: Command, b: Command)
    requires
        a != b,
    ensures
        spec_command_bytes(a) != spec_command_bytes(b),
{
    if spec_command_bytes(a) == spec_command_bytes(b) {
        assert(spec_command_bytes(a)[0] == spec_command_bytes(b)[0]);
        assert(spec_command_bytes(a)[1] == spec_command_bytes(b)[1]);
        assert(spec_command_bytes(a)[3] == spec_command_bytes(b)[3]);
    }
}

/// A command's own wire bytes parse back to that command.
pub proof fn lemma_parse_command_round_trip(c: Command)
    ensures
        spec_parse_command(spec_command_bytes(c)) == Some(c),
{
    if c != Command::Version {
        lemma_commands_distinct(c, Command::Version);
    }
    if c != Command::Verack {
        lemma_commands_distinct(c, Command::Verack);
    }
    if c != Command::Ping {
        lemma_commands_distinct(c, Command::Ping);
    }
    if c != Command::Pong {
        lemma_commands_distinct(c, Command::Pong);
    }
    if c != Command::GetAddr {
        lemma_commands_distinct(c, Command::GetAddr);
    }
    if c != Command::Addr {
        lemma_commands_distinct(c, Command::Addr);
    }
    if c != Command::GetHeaders {
        lemma_commands_distinct(c, Command::GetHeaders);
    }
    if c != Command::Headers {
        lemma_commands_distinct(c, Command::Headers);
    }
    if c != Command::GetBlocks {
        lemma_commands_distinct(c, Command::GetBlocks);
    }
    if c != Command::Block {
        lemma_commands_distinct(c, Command::Block);
    }
    if c != Command::GetData {
        lemma_commands_distinct(c, Command::GetData);
    }
    if c != Command::Inv {
        lemma_commands_distinct(c, Command::Inv);
    }
    if c != Command::NotFound {
        lemma_commands_distinct(c, Command::NotFound);
    }
    if c != Command::MemPool {
        lemma_commands_distinct(c, Command::MemPool);
    }
    if c != Command::Tx {
        lemma_commands_distinct(c, Command::Tx);
    }
    if c != Command::Reject {
        lemma_commands_distinct(c, Command::Reject);
    }
}

/// A message's own payload bytes, read under its own command, give back the
/// message.
pub proof fn lemma_dispatch_round_trip(m: MessageV)
    requires
        m.wf(),
    ensures
        spec_dispatch(m.spec_command(), m.spec_payload()) == Ok::<MessageV, ParseError>(m),
{
    match m {
        MessageV::Version(v) => {
            lemma_parse_command_round_trip(Command::Version);
            lemma_version_round_trip(v);
        },
        MessageV::Verack => {
            lemma_parse_command_round_trip(Command::Verack);
        },
        MessageV::Ping(n) => {
            lemma_parse_command_round_trip(Command::Ping);
            lemma_nonce_round_trip(n);
        },
        MessageV::Pong(n) => {
            lemma_parse_command_round_trip(Command::Pong);
            lemma_nonce_round_trip(n);
        },
        MessageV::GetAddr => {
            lemma_parse_command_round_trip(Command::GetAddr);
        },
        MessageV::MemPool => {
            lemma_parse_command_round_trip(Command::MemPool);
        },
        MessageV::Addr(a) => {
            lemma_parse_command_round_trip(Command::Addr);
            lemma_addr_round_trip(a);
        },
        MessageV::Headers(h) => {
            lemma_parse_command_round_trip(Command::Headers);
            lemma_headers_round_trip(h);
        },
        MessageV::GetHeaders(_) => {
            lemma_parse_command_round_trip(Command::GetHeaders);
        },
        MessageV::GetBlocks(_) => {
            lemma_parse_command_round_trip(Command::GetBlocks);
        },
        MessageV::GetData(_) => {
            lemma_parse_command_round_trip(Command::GetData);
        },
        MessageV::Inv(_) => {
            lemma_parse_command_round_trip(Command::Inv);
        },
        MessageV::NotFound(_) => {
            lemma_parse_command_round_trip(Command::NotFound);
        },
        MessageV::Block(_) => {
            lemma_parse_command_round_trip(Command::Block);
        },
        MessageV::Tx(_) => {
            lemma_parse_command_round_trip(Command::Tx);
        },
        MessageV::Reject(_) => {
            lemma_parse_command_round_trip(Command::Reject);
        },
        MessageV::Unknown { command, body } => {
        },
    }
}

/// Round trip of a whole frame: a well-formed message of bounded size,
/// framed by `spec_frame`, reads back as exactly that message.
pub proof fn lemma_message_round_trip(m: MessageV)
    requires
        m.wf(),
        m.spec_payload().len() <= MAX_MESSAGE_LEN,
    ensures
        spec_read_message(spec_frame(m)) == Ok::<MessageV, ParseError>(m),
{
    let payload = m.spec_payload();
    let hv = HeaderView {
        magic: spec_magic(),
        command: m.spec_command(),
        length: payload.len() as u32,
        checksum: spec_checksum(payload),
    };
    let b = spec_frame(m);
    assert(hv.wf()) by {
        lemma_command_len(m);
    }
    crate::header::lemma_header_round_trip(hv);
    assert(b.subrange(0, b.len() as int) =~= b);
    lemma_subrange_split(b, 0, hv.spec_encode(), payload);
    crate::header::lemma_header_decode_at(b, hv);
    assert(b.len() - 24 == payload.len());
    assert(b.subrange(24, 24 + hv.length) =~= payload);
    lemma_dispatch_round_trip(m);
}


/// Tampering is caught: a frame carrying the checksum of the original
/// payload but some other payload of the same length reads back as
/// `ChecksumMismatch` whenever the two payloads' digests differ — only a
/// digest collision could hide the change, and the mismatch is decided
/// before any command dispatch.
pub proof fn lemma_tampered_payload_rejected(m: MessageV, tampered: Seq<u8>)
    requires
        m.wf(),
        m.spec_payload().len() <= MAX_MESSAGE_LEN,
        tampered.len() == m.spec_payload().len(),
        spec_checksum(tampered) != spec_checksum(m.spec_payload()),
    ensures
        spec_read_message(
            (HeaderView {
                magic: spec_magic(),
                command: m.spec_command(),
                length: m.spec_payload().len() as u32,
                checksum: spec_checksum(m.spec_payload()),
            }).spec_encode() + tampered,
        ) == Err::<MessageV, ParseError>(ParseError::ChecksumMismatch),
{
    let payload = m.spec_payload();
    let hv = HeaderView {
        magic: spec_magic(),
        command: m.spec_command(),
        length: payload.len() as u32,
        checksum: spec_checksum(payload),
    };
    let b = hv.spec_encode() + tampered;
    assert(hv.wf()) by {
        lemma_command_len(m);
    }
    crate::header::lemma_header_round_trip(hv);
    assert(b.subrange(0, b.len() as int) =~= b);
    lemma_subrange_split(b, 0, hv.spec_encode(), tampered);
    crate::header::lemma_header_decode_at(b, hv);
    assert(b.len() - 24 == tampered.len());
    assert(b.subrange(24, 24 + hv.length) =~= tampered);
}

/// Every command identifier takes 12 bytes.
pub proof fn lemma_command_len(m: MessageV)
    requires
        m.wf(),
    ensures
        m.spec_command().len() == 12,
{
}

} // verus!

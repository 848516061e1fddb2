use vstd::prelude::*;
use crate::codec::bytes_eq;

verus! {

/// The commands the core knows how to dispatch.
#[derive(Clone, Copy, Debug, PartialEq, Eq, Structural)]
pub enum Command {
    Version,
    Verack,
    Ping,
    Pong,
    GetAddr,
    Addr,
    GetHeaders,
    Headers,
    GetBlocks,
    Block,
    GetData,
    Inv,
    NotFound,
    MemPool,
    Tx,
    Reject,
}

/// The 12-byte NUL-padded ASCII identifier of a command.
pub open spec fn spec_command_bytes(c: Command) -> Seq<u8> {
    match c {
        Command::Version => seq![118u8, 101u8, 114u8, 115u8, 105u8, 111u8, 110u8, 0u8, 0u8, 0u8, 0u8, 0u8],
        Command::Verack => seq![118u8, 101u8, 114u8, 97u8, 99u8, 107u8, 0u8, 0u8, 0u8, 0u8, 0u8, 0u8],
        Command::Ping => seq![112u8, 105u8, 110u8, 103u8, 0u8, 0u8, 0u8, 0u8, 0u8, 0u8, 0u8, 0u8],
        Command::Pong => seq![112u8, 111u8, 110u8, 103u8, 0u8, 0u8, 0u8, 0u8, 0u8, 0u8, 0u8, 0u8],
        Command::GetAddr => seq![103u8, 101u8, 116u8, 97u8, 100u8, 100u8, 114u8, 0u8, 0u8, 0u8, 0u8, 0u8],
        Command::Addr => seq![97u8, 100u8, 100u8, 114u8, 0u8, 0u8, 0u8, 0u8, 0u8, 0u8, 0u8, 0u8],
        Command::GetHeaders => seq![103u8, 101u8, 116u8, 104u8, 101u8, 97u8, 100u8, 101u8, 114u8, 115u8, 0u8, 0u8],
        Command::Headers => seq![104u8, 101u8, 97u8, 100u8, 101u8, 114u8, 115u8, 0u8, 0u8, 0u8, 0u8, 0u8],
        Command::GetBlocks => seq![103u8, 101u8, 116u8, 98u8, 108u8, 111u8, 99u8, 107u8, 115u8, 0u8, 0u8, 0u8],
        Command::Block => seq![98u8, 108u8, 111u8, 99u8, 107u8, 0u8, 0u8, 0u8, 0u8, 0u8, 0u8, 0u8],
        Command::GetData => seq![103u8, 101u8, 116u8, 100u8, 97u8, 116u8, 97u8, 0u8, 0u8, 0u8, 0u8, 0u8],
        Command::Inv => seq![105u8, 110u8, 118u8, 0u8, 0u8, 0u8, 0u8, 0u8, 0u8, 0u8, 0u8, 0u8],
        Command::NotFound => seq![110u8, 111u8, 116u8, 102u8, 111u8, 117u8, 110u8, 100u8, 0u8, 0u8, 0u8, 0u8],
        Command::MemPool => seq![109u8, 101u8, 109u8, 112u8, 111u8, 111u8, 108u8, 0u8, 0u8, 0u8, 0u8, 0u8],
        Command::Tx => seq![116u8, 120u8, 0u8, 0u8, 0u8, 0u8, 0u8, 0u8, 0u8, 0u8, 0u8, 0u8],
        Command::Reject => seq![114u8, 101u8, 106u8, 101u8, 99u8, 116u8, 0u8, 0u8, 0u8, 0u8, 0u8, 0u8],
    }
}

pub fn command_bytes(c: Command) -> (r: Vec<u8>)
    ensures
        r@ == spec_command_bytes(c),
        r@.len() == 12,
{
    match c {
        Command::Version => vec![118u8, 101u8, 114u8, 115u8, 105u8, 111u8, 110u8, 0u8, 0u8, 0u8, 0u8, 0u8],
        Command::Verack => vec![118u8, 101u8, 114u8, 97u8, 99u8, 107u8, 0u8, 0u8, 0u8, 0u8, 0u8, 0u8],
        Command::Ping => vec![112u8, 105u8, 110u8, 103u8, 0u8, 0u8, 0u8, 0u8, 0u8, 0u8, 0u8, 0u8],
        Command::Pong => vec![112u8, 111u8, 110u8, 103u8, 0u8, 0u8, 0u8, 0u8, 0u8, 0u8, 0u8, 0u8],
        Command::GetAddr => vec![103u8, 101u8, 116u8, 97u8, 100u8, 100u8, 114u8, 0u8, 0u8, 0u8, 0u8, 0u8],
        Command::Addr => vec![97u8, 100u8, 100u8, 114u8, 0u8, 0u8, 0u8, 0u8, 0u8, 0u8, 0u8, 0u8],
        Command::GetHeaders => vec![103u8, 101u8, 116u8, 104u8, 101u8, 97u8, 100u8, 101u8, 114u8, 115u8, 0u8, 0u8],
        Command::Headers => vec![104u8, 101u8, 97u8, 100u8, 101u8, 114u8, 115u8, 0u8, 0u8, 0u8, 0u8, 0u8],
        Command::GetBlocks => vec![103u8, 101u8, 116u8, 98u8, 108u8, 111u8, 99u8, 107u8, 115u8, 0u8, 0u8, 0u8],
        Command::Block => vec![98u8, 108u8, 111u8, 99u8, 107u8, 0u8, 0u8, 0u8, 0u8, 0u8, 0u8, 0u8],
        Command::GetData => vec![103u8, 101u8, 116u8, 100u8, 97u8, 116u8, 97u8, 0u8, 0u8, 0u8, 0u8, 0u8],
        Command::Inv => vec![105u8, 110u8, 118u8, 0u8, 0u8, 0u8, 0u8, 0u8, 0u8, 0u8, 0u8, 0u8],
        Command::NotFound => vec![110u8, 111u8, 116u8, 102u8, 111u8, 117u8, 110u8, 100u8, 0u8, 0u8, 0u8, 0u8],
        Command::MemPool => vec![109u8, 101u8, 109u8, 112u8, 111u8, 111u8, 108u8, 0u8, 0u8, 0u8, 0u8, 0u8],
        Command::Tx => vec![116u8, 120u8, 0u8, 0u8, 0u8, 0u8, 0u8, 0u8, 0u8, 0u8, 0u8, 0u8],
        Command::Reject => vec![114u8, 101u8, 106u8, 101u8, 99u8, 116u8, 0u8, 0u8, 0u8, 0u8, 0u8, 0u8],
    }
}

/// The known command, if any, that a 12-byte identifier names.
pub open spec fn spec_parse_command(s: Seq<u8>) -> Option<Command> {
    if s == spec_command_bytes(Command::Version) {
        Some(Command::Version)
    } else if s == spec_command_bytes(Command::Verack) {
        Some(Command::Verack)
    } else if s == spec_command_bytes(Command::Ping) {
        Some(Command::Ping)
    } else if s == spec_command_bytes(Command::Pong) {
        Some(Command::Pong)
    } else if s == spec_command_bytes(Command::GetAddr) {
        Some(Command::GetAddr)
    } else if s == spec_command_bytes(Command::Addr) {
        Some(Command::Addr)
    } else if s == spec_command_bytes(Command::GetHeaders) {
        Some(Command::GetHeaders)
    } else if s == spec_command_bytes(Command::Headers) {
        Some(Command::Headers)
    } else if s == spec_command_bytes(Command::GetBlocks) {
        Some(Command::GetBlocks)
    } else if s == spec_command_bytes(Command::Block) {
        Some(Command::Block)
    } else if s == spec_command_bytes(Command::GetData) {
        Some(Command::GetData)
    } else if s == spec_command_bytes(Command::Inv) {
        Some(Command::Inv)
    } else if s == spec_command_bytes(Command::NotFound) {
        Some(Command::NotFound)
    } else if s == spec_command_bytes(Command::MemPool) {
        Some(Command::MemPool)
    } else if s == spec_command_bytes(Command::Tx) {
        Some(Command::Tx)
    } else if s == spec_command_bytes(Command::Reject) {
        Some(Command::Reject)
    } else {
        None
    }
}

pub fn parse_command(s: &[u8]) -> (r: Option<Command>)
    ensures
        r == spec_parse_command(s@),
{
    if bytes_eq(s, command_bytes(Command::Version).as_slice()) {
        Some(Command::Version)
    } else if bytes_eq(s, command_bytes(Command::Verack).as_slice()) {
        Some(Command::Verack)
    } else if bytes_eq(s, command_bytes(Command::Ping).as_slice()) {
        Some(Command::Ping)
    } else if bytes_eq(s, command_bytes(Command::Pong).as_slice()) {
        Some(Command::Pong)
    } else if bytes_eq(s, command_bytes(Command::GetAddr).as_slice()) {
        Some(Command::GetAddr)
    } else if bytes_eq(s, command_bytes(Command::Addr).as_slice()) {
        Some(Command::Addr)
    } else if bytes_eq(s, command_bytes(Command::GetHeaders).as_slice()) {
        Some(Command::GetHeaders)
    } else if bytes_eq(s, command_bytes(Command::Headers).as_slice()) {
        Some(Command::Headers)
    } else if bytes_eq(s, command_bytes(Command::GetBlocks).as_slice()) {
        Some(Command::GetBlocks)
    } else if bytes_eq(s, command_bytes(Command::Block).as_slice()) {
        Some(Command::Block)
    } else if bytes_eq(s, command_bytes(Command::GetData).as_slice()) {
        Some(Command::GetData)
    } else if bytes_eq(s, command_bytes(Command::Inv).as_slice()) {
        Some(Command::Inv)
    } else if bytes_eq(s, command_bytes(Command::NotFound).as_slice()) {
        Some(Command::NotFound)
    } else if bytes_eq(s, command_bytes(Command::MemPool).as_slice()) {
        Some(Command::MemPool)
    } else if bytes_eq(s, command_bytes(Command::Tx).as_slice()) {
        Some(Command::Tx)
    } else if bytes_eq(s, command_bytes(Command::Reject).as_slice()) {
        Some(Command::Reject)
    } else {
        None
    }
}

} // verus!

use vstd::prelude::*;
use crate::codec::zero_vec;
use crate::command::{command_bytes, spec_parse_command, Command};
use crate::header::{spec_magic, MessageHeader};
use crate::checksum::spec_checksum;
use crate::MAX_MESSAGE_LEN;

verus! {

/// The bound under which a random-bytes corpus buffer stays.
pub const RANDOM_BYTES_MAX_LEN: usize = 0x10000;

/// Relies on rand::thread_rng and rand::Rng::gen_range: some value inside
/// the given half-open range; which one depends on the generator's state,
/// so nothing more is promised. The range must be non-empty, as gen_range
/// rejects an empty one.
#[verifier::external_body]
fn random_in_range(lo: usize, hi: usize) -> (r: usize)
    requires
        lo < hi,
    ensures
        lo <= r < hi,
{
    rand::Rng::gen_range(&mut rand::thread_rng(), lo..hi)
}

/// Relies on rand::thread_rng and rand::Rng::fill: the buffer keeps its
/// length and holds generator-dependent bytes, of which nothing is promised.
#[verifier::external_body]
fn fill_random(buf: &mut Vec<u8>)
    ensures
        final(buf)@.len() == old(buf)@.len(),
{
    rand::Rng::fill(&mut rand::thread_rng(), buf.as_mut_slice());
}

/// `n` buffers of zero bytes, each of a random length between one byte and
/// twice the maximum frame size: the all-zero header and command edge case.
pub fn zeroes(n: usize) -> (r: Vec<Vec<u8>>)
    ensures
        r@.len() == n,
        forall|i: int|
            0 <= i < n ==> {
                &&& 1 <= (#[trigger] r@[i])@.len() < 2 * MAX_MESSAGE_LEN
                &&& forall|j: int| 0 <= j < r@[i]@.len() ==> r@[i]@[j] == 0u8
            },
{
    let mut out: Vec<Vec<u8>> = Vec::new();
    let mut i: usize = 0;
    while i < n
        invariant
            i <= n,
            out@.len() == i,
            forall|k: int|
                0 <= k < i ==> {
                    &&& 1 <= (#[trigger] out@[k])@.len() < 2 * MAX_MESSAGE_LEN
                    &&& forall|j: int| 0 <= j < out@[k]@.len() ==> out@[k]@[j] == 0u8
                },
        decreases n - i,
    {
        let len = random_in_range(1, 2 * (MAX_MESSAGE_LEN as usize));
        out.push(zero_vec(len));
        i = i + 1;
    }
    out
}

/// `n` buffers of unpredictable bytes, each of a random length between one
/// byte and the random-corpus bound: fully unstructured input.
pub fn random_bytes(n: usize) -> (r: Vec<Vec<u8>>)
    ensures
        r@.len() == n,
        forall|i: int| 0 <= i < n ==> 1 <= (#[trigger] r@[i])@.len() < RANDOM_BYTES_MAX_LEN,
{
    let mut out: Vec<Vec<u8>> = Vec::new();
    let mut i: usize = 0;
    while i < n
        invariant
            i <= n,
            out@.len() == i,
            forall|k: int| 0 <= k < i ==> 1 <= (#[trigger] out@[k])@.len() < RANDOM_BYTES_MAX_LEN,
        decreases n - i,
    {
        let len = random_in_range(1, RANDOM_BYTES_MAX_LEN);
        let mut buf = zero_vec(len);
        fill_random(&mut buf);
        out.push(buf);
        i = i + 1;
    }
    out
}

/// Draws one of the sixteen known commands.
fn random_command() -> (c: Command) {
    let idx = random_in_range(0, 16);
    if idx == 0 {
        Command::Version
    } else if idx == 1 {
        Command::Verack
    } else if idx == 2 {
        Command::Ping
    } else if idx == 3 {
        Command::Pong
    } else if idx == 4 {
        Command::GetAddr
    } else if idx == 5 {
        Command::Addr
    } else if idx == 6 {
        Command::GetHeaders
    } else if idx == 7 {
        Command::Headers
    } else if idx == 8 {
        Command::GetBlocks
    } else if idx == 9 {
        Command::Block
    } else if idx == 10 {
        Command::GetData
    } else if idx == 11 {
        Command::Inv
    } else if idx == 12 {
        Command::NotFound
    } else if idx == 13 {
        Command::MemPool
    } else if idx == 14 {
        Command::Tx
    } else {
        Command::Reject
    }
}

/// `n` frames whose headers are syntactically valid — a known command, this
/// network's magic, the payload's true length and checksum — wrapped around
/// fully unpredictable payloads: command dispatch on content that fails
/// deeper validation.
pub fn metadata_compliant_random_bytes(n: usize) -> (r: Vec<(MessageHeader, Vec<u8>)>)
    ensures
        r@.len() == n,
        forall|i: int|
            0 <= i < n ==> {
                &&& spec_parse_command((#[trigger] r@[i]).0@.command) is Some
                &&& r@[i].0@.length == r@[i].1@.len()
                &&& r@[i].0@.magic == spec_magic()
                &&& r@[i].0@.checksum == spec_checksum(r@[i].1@)
                &&& 1 <= r@[i].1@.len() < RANDOM_BYTES_MAX_LEN
            },
{
    let mut out: Vec<(MessageHeader, Vec<u8>)> = Vec::new();
    let mut i: usize = 0;
    while i < n
        invariant
            i <= n,
            out@.len() == i,
            forall|k: int|
                0 <= k < i ==> {
                    &&& spec_parse_command((#[trigger] out@[k]).0@.command) is Some
                    &&& out@[k].0@.length == out@[k].1@.len()
                    &&& out@[k].0@.magic == spec_magic()
                    &&& out@[k].0@.checksum == spec_checksum(out@[k].1@)
                    &&& 1 <= out@[k].1@.len() < RANDOM_BYTES_MAX_LEN
                },
        decreases n - i,
    {
        let len = random_in_range(1, RANDOM_BYTES_MAX_LEN);
        let mut payload = zero_vec(len);
        fill_random(&mut payload);
        let c = random_command();
        let cmd = command_bytes(c);
        let header = MessageHeader::new(&cmd, payload.as_slice());
        proof {
            crate::message::lemma_parse_command_round_trip(c);
        }
        out.push((header, payload));
        i = i + 1;
    }
    out
}

} // verus!

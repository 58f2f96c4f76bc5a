//! Control messages on the wire: each is a frame made of a four-byte
//! big-endian length and that many bytes of encoded message.

use vstd::prelude::*;
use crate::models::FileMetadata;
use crate::text::{push_text, string_of};

verus! {

/// The largest encoded control message, in bytes.
pub const MAX_CONTROL_FRAME_BYTES: usize = 1048576;

/// The receiver's answer to an offer.
#[derive(Clone, Debug, PartialEq, Eq)]
pub enum OfferResponse {
    Accepted,
    Denied { message: String },
}

/// Announces the file whose contents follow.
#[derive(Clone, Debug, PartialEq, Eq)]
pub struct FileHeader {
    pub transfer_id: String,
    pub file_index: usize,
    pub file: FileMetadata,
}

/// Closes a transfer after the last file.
#[derive(Clone, Debug, PartialEq, Eq)]
pub struct TransferComplete {
    pub transfer_id: String,
}

/// The four big-endian bytes of `n` (`u32::to_be_bytes`).
pub open spec fn be32(n: nat) -> Seq<u8> {
    seq![
        ((n / 16777216) % 256) as u8,
        ((n / 65536) % 256) as u8,
        ((n / 256) % 256) as u8,
        (n % 256) as u8,
    ]
}

/// The number that four big-endian bytes stand for (`u32::from_be_bytes`).
pub open spec fn be32_value(h: Seq<u8>) -> nat {
    (h[0] as nat) * 16777216 + (h[1] as nat) * 65536 + (h[2] as nat) * 256 + (h[3] as nat)
}

/// The frame that carries `body`.
pub open spec fn frame_of(body: Seq<u8>) -> Seq<u8> {
    be32(body.len()) + body
}

/// The message for a body too large to send.
pub open spec fn too_large_message() -> Seq<char> {
    "Transfer message is too large"@
}

/// The message for a length field out of range.
pub open spec fn invalid_size_message() -> Seq<char> {
    "Transfer message has an invalid size"@
}

/// The message when the input ends inside the length field.
pub open spec fn short_header_message() -> Seq<char> {
    "Could not read transfer message: failed to fill whole buffer"@
}

/// The message when the input ends inside the body.
pub open spec fn short_body_message() -> Seq<char> {
    "Could not read transfer message body: failed to fill whole buffer"@
}

/// Whether a received length field is acceptable: neither zero nor above
/// the limit.
pub open spec fn valid_frame_length(n: nat) -> bool {
    0 < n <= MAX_CONTROL_FRAME_BYTES
}

/// What reading one frame from the start of `input` gives: the body and the
/// number of bytes consumed, or the message of the failure.
pub open spec fn frame_read(input: Seq<u8>) -> Result<(Seq<u8>, nat), Seq<char>> {
    if input.len() < 4 {
        Err(short_header_message())
    } else if !valid_frame_length(be32_value(input.take(4))) {
        Err(invalid_size_message())
    } else if input.len() < 4 + be32_value(input.take(4)) {
        Err(short_body_message())
    } else {
        let n = be32_value(input.take(4));
        Ok((input.subrange(4, 4 + n as int), (4 + n) as nat))
    }
}

/// Appends the frame carrying `body` to `out`; refuses a body above the
/// limit and leaves `out` unchanged then.
pub fn write_frame(out: &mut Vec<u8>, body: &[u8]) -> (r: Result<(), String>)
    ensures
        body@.len() > MAX_CONTROL_FRAME_BYTES ==> (r matches Err(m) && m@ == too_large_message()
            && final(out)@ == old(out)@),
        body@.len() <= MAX_CONTROL_FRAME_BYTES ==> (r is Ok && final(out)@ == old(out)@
            + frame_of(body@)),
{
    if body.len() > MAX_CONTROL_FRAME_BYTES {
        return Err("Transfer message is too large".to_owned());
    }
    let n: u64 = body.len() as u64;
    let ghost start = out@;
    out.push(((n / 16777216) % 256) as u8);
    out.push(((n / 65536) % 256) as u8);
    out.push(((n / 256) % 256) as u8);
    out.push((n % 256) as u8);
    assert(out@ == start + be32(body@.len()));
    let mut i: usize = 0;
    while i < body.len()
        invariant
            i <= body@.len(),
            out@ == start + be32(body@.len()) + body@.take(i as int),
        decreases body.len() - i,
    {
        out.push(body[i]);
        i = i + 1;
        assert(out@ == start + be32(body@.len()) + body@.take(i as int));
    }
    assert(body@.take(body@.len() as int) == body@);
    Ok(())
}

/// The body length announced by a frame's length field, when acceptable.
pub fn frame_body_length(header: [u8; 4]) -> (r: Result<usize, String>)
    ensures
        valid_frame_length(be32_value(header@)) ==> r == Ok::<usize, String>(
            be32_value(header@) as usize,
        ),
        !valid_frame_length(be32_value(header@)) ==> (r matches Err(m) && m@
            == invalid_size_message()),
{
    let n: u64 = (header[0] as u64) * 16777216 + (header[1] as u64) * 65536 + (header[2] as u64)
        * 256 + (header[3] as u64);
    if n == 0 || n > MAX_CONTROL_FRAME_BYTES as u64 {
        Err("Transfer message has an invalid size".to_owned())
    } else {
        Ok(n as usize)
    }
}

/// Reads one frame from the start of `input`: its body and the number of
/// bytes it took.
pub fn read_frame(input: &[u8]) -> (r: Result<(Vec<u8>, usize), String>)
    ensures
        match frame_read(input@) {
            Ok((body, used)) => r matches Ok((b, u)) && b@ == body && u == used,
            Err(m) => r matches Err(e) && e@ == m,
        },
{
    if input.len() < 4 {
        return Err("Could not read transfer message: failed to fill whole buffer".to_owned());
    }
    let header: [u8; 4] = [input[0], input[1], input[2], input[3]];
    assert(header@ == input@.take(4));
    let n = frame_body_length(header)?;
    if input.len() - 4 < n {
        return Err(
            "Could not read transfer message body: failed to fill whole buffer".to_owned(),
        );
    }
    let mut body: Vec<u8> = Vec::new();
    let mut i: usize = 0;
    while i < n
        invariant
            i <= n,
            4 + n <= input.len(),
            body@ == input@.subrange(4, 4 + i),
        decreases n - i,
    {
        body.push(input[4 + i]);
        i = i + 1;
    }
    Ok((body, 4 + n))
}

/// The length field of a frame reads back as the length it was written for.
pub proof fn lemma_be32_value_of_be32(n: nat)
    requires
        n < 4294967296,
    ensures
        be32_value(be32(n)) == n,
{
    let x = n as u32;
    assert(((x / 16777216) % 256) * 16777216 + ((x / 65536) % 256) * 65536 + ((x / 256) % 256) * 256
        + (x % 256) == x) by (bit_vector);
}

/// A frame written for a body of acceptable size reads back as that body,
/// consuming exactly the frame, whatever bytes follow it.
pub proof fn lemma_frame_round_trip(body: Seq<u8>, rest: Seq<u8>)
    requires
        0 < body.len() <= MAX_CONTROL_FRAME_BYTES,
    ensures
        frame_read(frame_of(body) + rest) == Ok::<(Seq<u8>, nat), Seq<char>>(
            (body, (4 + body.len()) as nat),
        ),
{
    let input = frame_of(body) + rest;
    lemma_be32_value_of_be32(body.len());
    assert(input.take(4) == be32(body.len()));
    assert(input.subrange(4, 4 + body.len() as int) == body);
}

} // verus!

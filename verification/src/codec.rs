//! Wire framing for the i3 IPC protocol.
//!
//! A frame is a fixed 6-byte magic preamble (`i3-ipc`), a 4-byte unsigned
//! payload-length field, a 4-byte unsigned message-type field, and exactly
//! `length` payload bytes. The protocol is local-only, so multi-byte fields
//! use a fixed little-endian layout on both sides.

use vstd::prelude::*;

verus! {

use vstd::bytes::spec_u32_from_le_bytes;
use vstd::bytes::spec_u32_to_le_bytes;
use vstd::bytes::lemma_auto_spec_u32_to_from_le_bytes;
use vstd::bytes::u32_from_le_bytes;
use vstd::bytes::u32_to_le_bytes;
use vstd::slice::slice_subrange;

/// A request to the window manager: either run a command (the payload is the
/// UTF-8 text of the command) or ask for the full window tree (no payload).
pub enum I3Message {
    RunCommand(Vec<u8>),
    GetTree,
}

/// Length of the magic preamble.
pub const MAGIC_LEN: usize = 6;

/// Length of a full frame header: magic preamble, length field, type field.
pub const HEADER_LEN: usize = 14;

/// The magic preamble, the bytes of `"i3-ipc"`.
pub open spec fn spec_magic() -> Seq<u8> {
    seq![0x69u8, 0x33u8, 0x2du8, 0x69u8, 0x70u8, 0x63u8]
}

/// Wire code of a message's type: 0 runs a command, 4 asks for the tree.
pub open spec fn spec_message_type(m: I3Message) -> u32 {
    match m {
        I3Message::RunCommand(_) => 0u32,
        I3Message::GetTree => 4u32,
    }
}

/// Payload bytes carried by a message.
pub open spec fn spec_message_payload(m: I3Message) -> Seq<u8> {
    match m {
        I3Message::RunCommand(payload) => payload@,
        I3Message::GetTree => Seq::empty(),
    }
}

/// The full wire encoding of a frame with the given type and payload.
pub open spec fn spec_frame(ty: u32, payload: Seq<u8>) -> Seq<u8>
    recommends
        payload.len() <= u32::MAX,
{
    spec_magic() + spec_u32_to_le_bytes(payload.len() as u32) + spec_u32_to_le_bytes(ty) + payload
}

/// Decoding of a received buffer: `None` when the buffer is too short for a
/// header or holds fewer payload bytes than its length field declares,
/// otherwise the type field and exactly `length` payload bytes. The preamble
/// and type bytes are not validated, only counted, matching the protocol's
/// permissive treatment of a trusted local peer.
pub open spec fn spec_decode(data: Seq<u8>) -> Option<(u32, Seq<u8>)> {
    if data.len() < HEADER_LEN {
        None
    } else {
        let len = spec_u32_from_le_bytes(data.subrange(MAGIC_LEN as int, MAGIC_LEN + 4)) as int;
        let ty = spec_u32_from_le_bytes(data.subrange(MAGIC_LEN + 4, HEADER_LEN as int));
        if data.len() < HEADER_LEN + len {
            None
        } else {
            Some((ty, data.subrange(HEADER_LEN as int, HEADER_LEN + len)))
        }
    }
}

/// Encodes a message into the bytes that go on the wire.
pub fn encode_frame(message: &I3Message) -> (r: Vec<u8>)
    requires
        spec_message_payload(*message).len() <= u32::MAX,
    ensures
        r@ == spec_frame(spec_message_type(*message), spec_message_payload(*message)),
{
    let empty: Vec<u8> = Vec::new();
    let (ty, payload): (u32, &Vec<u8>) = match message {
        I3Message::RunCommand(payload) => (0u32, payload),
        I3Message::GetTree => (4u32, &empty),
    };
    let len: u32 = payload.len() as u32;

    let mut r: Vec<u8> = Vec::new();
    r.push(0x69u8);
    r.push(0x33u8);
    r.push(0x2du8);
    r.push(0x69u8);
    r.push(0x70u8);
    r.push(0x63u8);
    assert(r@ =~= spec_magic());

    let mut len_bytes: Vec<u8> = u32_to_le_bytes(len);
    r.append(&mut len_bytes);
    let mut ty_bytes: Vec<u8> = u32_to_le_bytes(ty);
    r.append(&mut ty_bytes);

    let mut i: usize = 0;
    let ghost head: Seq<u8> = r@;
    while i < payload.len()
        invariant
            i <= payload@.len(),
            r@ == head + payload@.subrange(0, i as int),
        decreases payload@.len() - i,
    {
        r.push(payload[i]);
        assert(r@ =~= head + payload@.subrange(0, i + 1));
        i = i + 1;
    }
    assert(payload@.subrange(0, payload@.len() as int) =~= payload@);
    assert(r@ =~= spec_frame(spec_message_type(*message), spec_message_payload(*message)));
    r
}

/// Decodes a received buffer into its type field and payload. Returns `None`
/// exactly when the buffer is shorter than a header or than the payload
/// length its header declares.
pub fn decode_frame(data: &Vec<u8>) -> (r: Option<(u32, Vec<u8>)>)
    ensures
        spec_decode(data@) is Some <==> r is Some,
        r matches Some(p) ==> spec_decode(data@) == Some((p.0, p.1@)),
{
    if data.len() < HEADER_LEN {
        return None;
    }
    let len_field: u32 = u32_from_le_bytes(slice_subrange(data.as_slice(), MAGIC_LEN, MAGIC_LEN + 4));
    let ty: u32 = u32_from_le_bytes(slice_subrange(data.as_slice(), MAGIC_LEN + 4, HEADER_LEN));
    let len: usize = len_field as usize;
    if data.len() - HEADER_LEN < len {
        return None;
    }

    let mut payload: Vec<u8> = Vec::new();
    let mut i: usize = 0;
    while i < len
        invariant
            i <= len,
            HEADER_LEN + len <= data@.len(),
            data@.len() <= usize::MAX,
            payload@ == data@.subrange(HEADER_LEN as int, HEADER_LEN + i),
        decreases len - i,
    {
        payload.push(data[HEADER_LEN + i]);
        assert(payload@ =~= data@.subrange(HEADER_LEN as int, HEADER_LEN + i + 1));
        i = i + 1;
    }
    Some((ty, payload))
}

/// Reads the payload-length field out of a received frame header, so that a
/// caller that has the header in hand knows how many payload bytes must
/// still follow. The value is the one `spec_decode` holds the rest of the
/// frame to.
pub fn header_payload_length(header: &Vec<u8>) -> (r: u32)
    requires
        header@.len() >= HEADER_LEN,
    ensures
        r == spec_u32_from_le_bytes(header@.subrange(MAGIC_LEN as int, MAGIC_LEN + 4)),
{
    u32_from_le_bytes(slice_subrange(header.as_slice(), MAGIC_LEN, MAGIC_LEN + 4))
}

/// Framing round-trip: decoding an encoded frame gives back exactly the
/// message type and the payload that went in.
pub proof fn lemma_frame_round_trip(ty: u32, payload: Seq<u8>)
    requires
        payload.len() <= u32::MAX,
    ensures
        spec_decode(spec_frame(ty, payload)) == Some((ty, payload)),
{
    lemma_auto_spec_u32_to_from_le_bytes();
    let f = spec_frame(ty, payload);
    assert(f.len() == HEADER_LEN + payload.len());
    assert(f.subrange(MAGIC_LEN as int, MAGIC_LEN + 4) =~= spec_u32_to_le_bytes(
        payload.len() as u32,
    ));
    assert(f.subrange(MAGIC_LEN + 4, HEADER_LEN as int) =~= spec_u32_to_le_bytes(ty));
    assert(f.subrange(HEADER_LEN as int, HEADER_LEN + payload.len()) =~= payload);
}

/// Length exactness: a buffer whose header declares more payload bytes than
/// the buffer actually holds decodes to nothing; a truncated payload is never
/// handed back as success.
pub proof fn lemma_truncated_payload_rejected(data: Seq<u8>)
    requires
        data.len() >= HEADER_LEN,
        data.len() - HEADER_LEN < spec_u32_from_le_bytes(
            data.subrange(MAGIC_LEN as int, MAGIC_LEN + 4),
        ),
    ensures
        spec_decode(data) is None,
{
}

} // verus!

use crate::error::UsbtmcErrors;
use byteorder::{ByteOrder, LittleEndian};
use vstd::prelude::*;

verus! {

/// Message id of a DEV_DEP_MSG_OUT transfer (host to device command).
pub const USBTMC_MSGID_DEV_DEP_MSG_OUT: u8 = 1;

/// Message id of a DEV_DEP_MSG_IN request (host asks the device for data).
pub const USBTMC_MSGID_DEV_DEP_MSG_IN: u8 = 2;

/// Every bulk-OUT header and every response header is this many bytes.
pub const HEADER_SIZE: usize = 12;

/// The largest transfer a DEV_DEP_MSG_IN request announces, and the largest
/// chunk size a session accepts (1 MiB).
pub const MAX_TRANSFER_SIZE: usize = 1048576;

/// `n` as four bytes, least significant first.
pub open spec fn le_u32_bytes(n: u32) -> Seq<u8> {
    seq![
        (n & 0xff) as u8,
        ((n >> 8u32) & 0xff) as u8,
        ((n >> 16u32) & 0xff) as u8,
        ((n >> 24u32) & 0xff) as u8,
    ]
}

/// The number stored little-endian in the first four bytes of `b`.
pub open spec fn le_u32_value(b: Seq<u8>) -> u32
    recommends
        b.len() >= 4,
{
    (b[0] as u32) | ((b[1] as u32) << 8u32) | ((b[2] as u32) << 16u32) | ((b[3] as u32) << 24u32)
}

/// The complement of a tag, sent next to it so that the device can check it.
pub open spec fn inverse_tag(tag: u8) -> u8 {
    (255 - tag) as u8
}

/// The tag that follows `tag`: 1, 2, ..., 255, then 1 again; never 0.
pub open spec fn next_tag_spec(tag: u8) -> u8 {
    if tag >= 255 {
        1
    } else {
        (tag + 1) as u8
    }
}

/// The four bytes shared by every bulk-OUT header.
pub open spec fn bulk_out_prefix(msg_id: u8, tag: u8) -> Seq<u8> {
    seq![msg_id, tag, inverse_tag(tag), 0u8]
}

/// The DEV_DEP_MSG_OUT header announcing a command of `transfer_size` bytes.
pub open spec fn dev_dep_msg_out_header(transfer_size: u32, eom: bool, tag: u8) -> Seq<u8> {
    bulk_out_prefix(USBTMC_MSGID_DEV_DEP_MSG_OUT, tag) + le_u32_bytes(transfer_size) + seq![
        if eom {
            1u8
        } else {
            0u8
        },
        0u8,
        0u8,
        0u8,
    ]
}

/// The DEV_DEP_MSG_IN header asking for at most `max_transfer_size` bytes,
/// optionally ending at `term_char`.
pub open spec fn dev_dep_msg_in_header(max_transfer_size: u32, term_char: Option<u8>, tag: u8) -> Seq<u8> {
    bulk_out_prefix(USBTMC_MSGID_DEV_DEP_MSG_IN, tag) + le_u32_bytes(max_transfer_size) + match term_char {
        Some(c) => seq![2u8, c, 0u8, 0u8],
        None => seq![0u8, 0u8, 0u8, 0u8],
    }
}

/// What the response header in front of a DEV_DEP_MSG_IN reply says.
#[derive(Debug, Clone, Copy, PartialEq, Eq, Structural)]
pub struct ResponseHeader {
    /// Payload bytes the device announces for this reply.
    pub transfer_size: u32,
    /// Whether the device's message ends with this reply.
    pub eom: bool,
}

/// The fields of the response header at the start of `b` (at least 12 bytes):
/// the little-endian size at offsets 4..8 and bit 0 of byte 8.
pub open spec fn response_header_of(b: Seq<u8>) -> ResponseHeader
    recommends
        b.len() >= HEADER_SIZE,
{
    ResponseHeader { transfer_size: le_u32_value(b.subrange(4, 8)), eom: b[8] & 1 == 1 }
}

/// Relies on byteorder's `LittleEndian::write_u32`, which stores `n` in the
/// first four bytes of the buffer, least significant byte first.
#[verifier::external_body]
fn little_write_u32(n: u32) -> (r: Vec<u8>)
    ensures
        r@ == le_u32_bytes(n),
{
    let mut buf = vec![0u8; 4];
    LittleEndian::write_u32(&mut buf, n);
    buf
}

/// Relies on byteorder's `LittleEndian::read_u32`, which reads the first four
/// bytes of the buffer, least significant byte first (it panics on fewer).
#[verifier::external_body]
fn little_read_u32(buf: &[u8]) -> (r: u32)
    requires
        buf@.len() >= 4,
    ensures
        r == le_u32_value(buf@),
{
    LittleEndian::read_u32(buf)
}

/// Reading back the four bytes written for `n` gives `n`.
pub proof fn lemma_le_u32_round_trip(n: u32)
    ensures
        le_u32_value(le_u32_bytes(n)) == n,
{
    let b = le_u32_bytes(n);
    assert(b[0] == (n & 0xff) as u8 && b[1] == ((n >> 8u32) & 0xff) as u8 && b[2] == ((n >> 16u32)
        & 0xff) as u8 && b[3] == ((n >> 24u32) & 0xff) as u8);
    assert((((n & 0xff) as u8) as u32) | (((((n >> 8u32) & 0xff) as u8) as u32) << 8u32) | (((((n
        >> 16u32) & 0xff) as u8) as u32) << 16u32) | (((((n >> 24u32) & 0xff) as u8) as u32)
        << 24u32) == n) by (bit_vector);
}

/// The tag to use after `tag`: `(tag % 255) + 1`, so 1..=255 in turn.
pub fn next_tag(tag: u8) -> (r: u8)
    ensures
        r == next_tag_spec(tag),
        r == (tag % 255) + 1,
        1 <= r,
{
    (tag % 255) + 1
}

/// The four bytes that open every bulk-OUT header: message id, tag, the
/// tag's complement and a reserved zero.
pub fn pack_bulk_out_header(msgid: u8, tag: u8) -> (r: Vec<u8>)
    ensures
        r@ == bulk_out_prefix(msgid, tag),
{
    let inverse: u8 = 255 - tag;
    let r = vec![msgid, tag, inverse, 0x00];
    assert(r@ =~= bulk_out_prefix(msgid, tag));
    r
}

/// The 12-byte DEV_DEP_MSG_OUT header for a command of `transfer_size` bytes.
pub fn pack_dev_dep_msg_out_header(transfer_size: u32, eom: bool, tag: u8) -> (r: Vec<u8>)
    ensures
        r@ == dev_dep_msg_out_header(transfer_size, eom, tag),
        r@.len() == HEADER_SIZE,
{
    let mut header = pack_bulk_out_header(USBTMC_MSGID_DEV_DEP_MSG_OUT, tag);
    let mut total_transfer_size = little_write_u32(transfer_size);
    let bm_transfer_attributes: u8 = if eom {
        0x01
    } else {
        0x00
    };
    header.append(&mut total_transfer_size);
    header.push(bm_transfer_attributes);
    header.push(0x00);
    header.push(0x00);
    header.push(0x00);
    assert(header@ =~= dev_dep_msg_out_header(transfer_size, eom, tag));
    header
}

/// The 12-byte DEV_DEP_MSG_IN header asking for at most `max_transfer_size`
/// bytes; with `Some(c)` the device may stop early at the byte `c`.
pub fn pack_dev_dep_msg_in_header(max_transfer_size: u32, term_char: Option<u8>, tag: u8) -> (r: Vec<u8>)
    ensures
        r@ == dev_dep_msg_in_header(max_transfer_size, term_char, tag),
        r@.len() == HEADER_SIZE,
{
    let mut header = pack_bulk_out_header(USBTMC_MSGID_DEV_DEP_MSG_IN, tag);
    let mut size = little_write_u32(max_transfer_size);
    header.append(&mut size);
    match term_char {
        Some(c) => {
            header.push(0x02);
            header.push(c);
        },
        None => {
            header.push(0x00);
            header.push(0x00);
        },
    }
    header.push(0x00);
    header.push(0x00);
    assert(header@ =~= dev_dep_msg_in_header(max_transfer_size, term_char, tag));
    header
}

/// Reads the response header in front of a DEV_DEP_MSG_IN reply; fails with
/// `InvalidData` exactly when fewer than 12 bytes are given.
pub fn decode_response_header(bytes: &[u8]) -> (r: Result<ResponseHeader, UsbtmcErrors>)
    ensures
        bytes@.len() < HEADER_SIZE ==> r == Err::<ResponseHeader, UsbtmcErrors>(
            UsbtmcErrors::InvalidData,
        ),
        bytes@.len() >= HEADER_SIZE ==> r == Ok::<ResponseHeader, UsbtmcErrors>(
            response_header_of(bytes@),
        ),
{
    if bytes.len() < HEADER_SIZE {
        return Err(UsbtmcErrors::InvalidData);
    }
    let size_field = &bytes[4..8];
    let transfer_size = little_read_u32(size_field);
    let eom = bytes[8] & 1 == 1;
    Ok(ResponseHeader { transfer_size, eom })
}

/// A DEV_DEP_MSG_OUT header read back as a response header gives the size
/// and the end-of-message bit it was written with.
pub proof fn lemma_header_round_trip(transfer_size: u32, eom: bool, tag: u8)
    ensures
        response_header_of(dev_dep_msg_out_header(transfer_size, eom, tag)) == (ResponseHeader {
            transfer_size,
            eom,
        }),
{
    let h = dev_dep_msg_out_header(transfer_size, eom, tag);
    lemma_le_u32_round_trip(transfer_size);
    assert(h.subrange(4, 8) =~= le_u32_bytes(transfer_size));
    assert(1u8 & 1 == 1) by (bit_vector);
    assert(0u8 & 1 == 0) by (bit_vector);
}

/// How many zero bytes follow a payload of `n` bytes so that the 12-byte
/// header and the payload together fill whole 4-byte words.
pub open spec fn padding_len_spec(n: nat) -> nat {
    ((4 - n % 4) % 4) as nat
}

/// For every payload length the padding is at most 3 bytes, and header,
/// payload and padding together fill whole 4-byte words.
pub proof fn lemma_padding(n: nat)
    ensures
        padding_len_spec(n) <= 3,
        (HEADER_SIZE + n + padding_len_spec(n)) % 4 == 0,
{
}

/// The whole bulk-OUT transfer that carries `command`: its DEV_DEP_MSG_OUT
/// header (end of message set), the command, then zero padding.
pub open spec fn dev_dep_msg_out(command: Seq<u8>, tag: u8) -> Seq<u8> {
    dev_dep_msg_out_header(command.len() as u32, true, tag) + command + Seq::new(
        padding_len_spec(command.len()),
        |i: int| 0u8,
    )
}

/// The number of zero bytes to append after a payload of `payload_len`
/// bytes: at most 3, and header, payload and padding end on a 4-byte boundary.
pub fn padding_len(payload_len: usize) -> (pad: usize)
    ensures
        pad == padding_len_spec(payload_len as nat),
        pad <= 3,
        (HEADER_SIZE + payload_len + pad) % 4 == 0,
{
    (4 - payload_len % 4) % 4
}

/// Frames `command` as one DEV_DEP_MSG_OUT transfer: header with the size of
/// `command` and the end-of-message bit, the command bytes, zero padding.
pub fn pack_dev_dep_msg_out(command: &[u8], tag: u8) -> (r: Vec<u8>)
    requires
        command@.len() <= u32::MAX,
    ensures
        r@ == dev_dep_msg_out(command@, tag),
        r@.len() % 4 == 0,
{
    let size = command.len();
    let mut req = pack_dev_dep_msg_out_header(size as u32, true, tag);
    let mut i: usize = 0;
    while i < size
        invariant
            i <= size,
            size == command@.len(),
            req@ == dev_dep_msg_out_header(size as u32, true, tag) + command@.subrange(0, i as int),
        decreases size - i,
    {
        req.push(command[i]);
        i += 1;
        assert(req@ =~= dev_dep_msg_out_header(size as u32, true, tag) + command@.subrange(
            0,
            i as int,
        ));
    }
    let pad = padding_len(size);
    let mut j: usize = 0;
    while j < pad
        invariant
            j <= pad,
            pad <= 3,
            size == command@.len(),
            req@ == dev_dep_msg_out_header(size as u32, true, tag) + command@ + Seq::new(
                j as nat,
                |k: int| 0u8,
            ),
        decreases pad - j,
    {
        req.push(0x00);
        j += 1;
        assert(req@ =~= dev_dep_msg_out_header(size as u32, true, tag) + command@ + Seq::new(
            j as nat,
            |k: int| 0u8,
        ));
    }
    assert(command@.subrange(0, size as int) =~= command@);
    req
}

} // verus!

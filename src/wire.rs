//! Byte-level encoding of protocol messages: scalars, strings, arrays, file
//! descriptors and the message frame.
use vstd::prelude::*;

verus! {

/// The largest size in bytes of one framed message.
pub const MAX_MESSAGE_SIZE: usize = 65535;

/// Size in bytes of a message header: object id, size and opcode.
pub const HEADER_SIZE: usize = 8;

/// The bytes of a 16-bit value, least significant first.
pub open spec fn u16_le(v: u16) -> Seq<u8> {
    seq![(v % 256) as u8, (v / 256) as u8]
}

/// The bytes of a 32-bit value, least significant first.
pub open spec fn u32_le(v: u32) -> Seq<u8> {
    seq![(v % 256) as u8, ((v / 256) % 256) as u8, ((v / 65536) % 256) as u8, (v / 16777216) as u8]
}

/// The 16-bit value stored least significant byte first at `i`.
pub open spec fn u16_at(b: Seq<u8>, i: int) -> u16 {
    (b[i] as int + 256 * b[i + 1] as int) as u16
}

/// The 32-bit value stored least significant byte first at `i`.
pub open spec fn u32_at(b: Seq<u8>, i: int) -> u32 {
    (b[i] as int + 256 * b[i + 1] as int + 65536 * b[i + 2] as int + 16777216 * b[i
        + 3] as int) as u32
}

/// A length rounded up to a multiple of four.
pub open spec fn pad4(n: nat) -> nat {
    ((n + 3) / 4 * 4) as nat
}

/// `n` zero bytes.
pub open spec fn zeros(n: nat) -> Seq<u8> {
    Seq::new(n, |i: int| 0u8)
}

/// Bytes followed by zero bytes up to the next multiple of four.
pub open spec fn padded(b: Seq<u8>) -> Seq<u8> {
    b + zeros((pad4(b.len()) - b.len()) as nat)
}

pub proof fn lemma_u32_round_trip(v: u32, rest: Seq<u8>)
    ensures
        u32_le(v).len() == 4,
        u32_at(u32_le(v) + rest, 0) == v,
{
    let b = u32_le(v) + rest;
    assert(b[0] == (v % 256) as u8);
    assert(b[1] == ((v / 256) % 256) as u8);
    assert(b[2] == ((v / 65536) % 256) as u8);
    assert(b[3] == (v / 16777216) as u8);
    let x = v as int;
    assert(x % 256 + 256 * ((x / 256) % 256) + 65536 * ((x / 65536) % 256) + 16777216 * (x
        / 16777216) == x) by (nonlinear_arith)
        requires
            0 <= x < 0x1_0000_0000,
    ;
}

pub proof fn lemma_u16_round_trip(v: u16, rest: Seq<u8>)
    ensures
        u16_le(v).len() == 2,
        u16_at(u16_le(v) + rest, 0) == v,
{
    let b = u16_le(v) + rest;
    assert(b[0] == (v % 256) as u8);
    assert(b[1] == (v / 256) as u8);
}

pub proof fn lemma_padded(b: Seq<u8>)
    ensures
        padded(b).len() == pad4(b.len()),
        b.len() <= pad4(b.len()) <= b.len() + 3,
        padded(b).subrange(0, b.len() as int) == b,
{
    assert(padded(b).subrange(0, b.len() as int) =~= b);
}

/// Appends the bytes of a 16-bit value.
pub fn push_u16(out: &mut Vec<u8>, v: u16)
    ensures
        final(out)@ == old(out)@ + u16_le(v),
{
    out.push((v % 256) as u8);
    out.push((v / 256) as u8);
    assert(out@ =~= old(out)@ + u16_le(v));
}

/// Appends the bytes of a 32-bit value.
pub fn push_u32(out: &mut Vec<u8>, v: u32)
    ensures
        final(out)@ == old(out)@ + u32_le(v),
{
    out.push((v % 256) as u8);
    out.push(((v / 256) % 256) as u8);
    out.push(((v / 65536) % 256) as u8);
    out.push((v / 16777216) as u8);
    assert(out@ =~= old(out)@ + u32_le(v));
}

/// Reads the 32-bit value stored at `i`.
pub fn read_u32(b: &[u8], i: usize) -> (r: u32)
    requires
        i + 4 <= b@.len(),
    ensures
        r == u32_at(b@, i as int),
{
    b[i] as u32 + (b[i + 1] as u32) * 256 + (b[i + 2] as u32) * 65536 + (b[i + 3] as u32)
        * 16777216
}

/// Reads the 16-bit value stored at `i`.
pub fn read_u16(b: &[u8], i: usize) -> (r: u16)
    requires
        i + 2 <= b@.len(),
    ensures
        r == u16_at(b@, i as int),
{
    b[i] as u16 + (b[i + 1] as u16) * 256
}

/// Copies `b[start..end]` into a new vector.
pub fn copy_range(b: &[u8], start: usize, end: usize) -> (r: Vec<u8>)
    requires
        start <= end <= b@.len(),
    ensures
        r@ == b@.subrange(start as int, end as int),
{
    let mut r: Vec<u8> = Vec::with_capacity(end - start);
    let mut i: usize = start;
    while i < end
        invariant
            start <= i <= end <= b@.len(),
            r@ == b@.subrange(start as int, i as int),
        decreases end - i,
    {
        r.push(b[i]);
        i = i + 1;
        assert(r@ =~= b@.subrange(start as int, i as int));
    }
    r
}

/// Appends zero bytes until the length added since `start` is a multiple of four.
fn push_padding(out: &mut Vec<u8>, n: usize)
    requires
        n <= 3,
    ensures
        final(out)@ == old(out)@ + zeros(n as nat),
{
    let mut i: usize = 0;
    while i < n
        invariant
            i <= n,
            out@ == old(out)@ + zeros(i as nat),
        decreases n - i,
    {
        out.push(0u8);
        i = i + 1;
        assert(out@ =~= old(out)@ + zeros(i as nat));
    }
}

/// Appends a byte string, then zero bytes up to a multiple of four.
pub fn push_padded(out: &mut Vec<u8>, b: &[u8])
    ensures
        final(out)@ == old(out)@ + padded(b@),
{
    let mut i: usize = 0;
    while i < b.len()
        invariant
            i <= b@.len(),
            out@ == old(out)@ + b@.subrange(0, i as int),
        decreases b@.len() - i,
    {
        out.push(b[i]);
        i = i + 1;
        assert(out@ =~= old(out)@ + b@.subrange(0, i as int));
    }
    let n: usize = (4 - b.len() % 4) % 4;
    push_padding(out, n);
    assert(b@.subrange(0, b@.len() as int) =~= b@);
    assert(pad4(b@.len()) - b@.len() == n);
    assert(out@ =~= old(out)@ + padded(b@));
}

/// The header that starts every message.
#[derive(Clone, Copy, Debug, PartialEq, Eq, Structural)]
pub struct MessageHeader {
    /// The object the message is addressed to; never zero.
    pub object_id: u32,
    /// The size of the whole message in bytes, header included.
    pub size: u16,
    /// The request or event number within the object's interface.
    pub opcode: u16,
}

/// A framed message: object id, total size, opcode, then the body.
pub open spec fn frame(object_id: u32, opcode: u16, body: Seq<u8>) -> Seq<u8> {
    u32_le(object_id) + u16_le((8 + body.len()) as u16) + u16_le(opcode) + body
}

/// What the front of a byte stream holds.
pub enum Framed {
    /// Fewer bytes than a whole message.
    Incomplete,
    /// A header whose object id is zero, or whose size is below the header's own.
    Invalid,
    /// A whole message: its header and its body.
    Message(MessageHeader, Seq<u8>),
}

/// Reads the first message of a byte stream.
pub open spec fn parse_frame(b: Seq<u8>) -> Framed {
    if b.len() < 8 {
        Framed::Incomplete
    } else {
        let h = MessageHeader { object_id: u32_at(b, 0), size: u16_at(b, 4), opcode: u16_at(b, 6) };
        if h.object_id == 0 || h.size < 8 {
            Framed::Invalid
        } else if h.size > b.len() {
            Framed::Incomplete
        } else {
            Framed::Message(h, b.subrange(8, h.size as int))
        }
    }
}

/// Reading a framed message back gives its object id, opcode and body, and
/// framing those again gives the very same bytes, whatever follows the message.
pub proof fn lemma_frame_round_trip(object_id: u32, opcode: u16, body: Seq<u8>, rest: Seq<u8>)
    requires
        object_id != 0,
        8 + body.len() <= 65535,
    ensures
        parse_frame(frame(object_id, opcode, body) + rest) == Framed::Message(
            MessageHeader { object_id, size: (8 + body.len()) as u16, opcode },
            body,
        ),
        frame(object_id, opcode, body).len() == 8 + body.len(),
{
    let size = (8 + body.len()) as u16;
    let b = frame(object_id, opcode, body) + rest;
    lemma_u32_round_trip(object_id, b.skip(4));
    assert(b =~= u32_le(object_id) + b.skip(4));
    lemma_u16_round_trip(size, b.skip(6));
    assert(b.skip(4) =~= u16_le(size) + b.skip(6));
    lemma_u16_round_trip(opcode, b.skip(8));
    assert(b.skip(6) =~= u16_le(opcode) + b.skip(8));
    assert(u16_at(b, 4) == u16_at(b.skip(4), 0));
    assert(u16_at(b, 6) == u16_at(b.skip(6), 0));
    assert(u32_at(b, 0) == u32_at(u32_le(object_id) + b.skip(4), 0));
    assert(b.subrange(8, size as int) =~= body);
}

/// Reads the header at `off`, when there is one.
pub fn read_header(b: &[u8], off: usize) -> (r: Option<MessageHeader>)
    requires
        off <= b@.len(),
    ensures
        b@.len() - off < 8 ==> r is None,
        b@.len() - off >= 8 ==> r == Some(
            MessageHeader {
                object_id: u32_at(b@.skip(off as int), 0),
                size: u16_at(b@.skip(off as int), 4),
                opcode: u16_at(b@.skip(off as int), 6),
            },
        ),
{
    if b.len() - off < 8 {
        return None;
    }
    let ghost s = b@.skip(off as int);
    let object_id = read_u32(b, off);
    let size = read_u16(b, off + 4);
    let opcode = read_u16(b, off + 6);
    assert(s[0] == b@[off as int] && s[1] == b@[off + 1] && s[2] == b@[off + 2] && s[3]
        == b@[off + 3] && s[4] == b@[off + 4] && s[5] == b@[off + 5] && s[6] == b@[off + 6]
        && s[7] == b@[off + 7]);
    Some(MessageHeader { object_id, size, opcode })
}

} // verus!

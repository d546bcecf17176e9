//! The message boundary: one tagged record for request and response.
//!
//! A message is written as a fixed header and the payload behind it. All
//! integers are little-endian.
//!
//! | bytes    | field                         |
//! |----------|-------------------------------|
//! | 0..4     | record tag                    |
//! | 4..8     | width                         |
//! | 8..12    | height                        |
//! | 12..20   | number of payload bytes       |
//! | 20..     | payload                       |
use vstd::prelude::*;

verus! {

/// The record tag: the bytes `L`, `B`, `P`, `1` read as a little-endian word.
pub const MESSAGE_TAG: u32 = 0x3150_424c;

/// Number of bytes in front of the payload.
pub const HEADER_LEN: usize = 20;

/// What can be wrong with a request.
#[derive(Debug, Clone, Copy, PartialEq, Eq, Structural)]
pub enum ProcessError {
    /// The bytes are not a well-framed message: too short for a header, a
    /// foreign tag, or a payload that is shorter or longer than announced.
    SchemaDecode,
    /// The payload does not hold the number of bytes that the dimensions and
    /// the kind of message call for.
    DimensionMismatch,
    /// The image has no pixels: its width or its height is zero.
    InvalidDimensions,
}

/// The two uses of a message. They differ in the bytes per pixel that the
/// payload carries.
#[derive(Debug, Clone, Copy, PartialEq, Eq, Structural)]
pub enum MessageKind {
    /// RGBA pixels, four bytes each.
    Request,
    /// Codes, one byte per pixel.
    Response,
}

impl MessageKind {
    /// Payload bytes per pixel.
    pub open spec fn channels(self) -> nat {
        match self {
            MessageKind::Request => 4,
            MessageKind::Response => 1,
        }
    }

    /// Payload bytes per pixel.
    pub fn channel_count(&self) -> (n: u8)
        ensures
            n == self.channels(),
    {
        match self {
            MessageKind::Request => 4,
            MessageKind::Response => 1,
        }
    }
}

/// A decoded message.
#[derive(Debug, PartialEq, Eq)]
pub struct Message {
    pub width: u32,
    pub height: u32,
    pub buf: Vec<u8>,
}

/// A message as a mathematical value.
pub struct MessageView {
    pub width: u32,
    pub height: u32,
    pub buf: Seq<u8>,
}

impl View for Message {
    type V = MessageView;

    open spec fn view(&self) -> MessageView {
        MessageView { width: self.width, height: self.height, buf: self.buf@ }
    }
}

/// The four bytes of a word, lowest first.
pub open spec fn le_u32(x: u32) -> Seq<u8> {
    seq![
        (x % 256) as u8,
        (x / 256 % 256) as u8,
        (x / 65536 % 256) as u8,
        (x / 16777216) as u8,
    ]
}

/// The word that four bytes spell, lowest first.
pub open spec fn le_u32_value(s: Seq<u8>) -> int {
    s[0] + 256 * s[1] + 65536 * s[2] + 16777216 * s[3]
}

/// The eight bytes of a double word, lowest first.
pub open spec fn le_u64(x: u64) -> Seq<u8> {
    le_u32((x % 0x1_0000_0000) as u32) + le_u32((x / 0x1_0000_0000) as u32)
}

/// The double word that eight bytes spell, lowest first.
pub open spec fn le_u64_value(s: Seq<u8>) -> int {
    le_u32_value(s.subrange(0, 4)) + 0x1_0000_0000 * le_u32_value(s.subrange(4, 8))
}

/// The bytes of a message: header, then payload.
pub open spec fn encoding(m: MessageView) -> Seq<u8> {
    le_u32(MESSAGE_TAG) + le_u32(m.width) + le_u32(m.height) + le_u64(m.buf.len() as u64) + m.buf
}

/// Whether `data` is a header followed by exactly the payload it announces.
pub open spec fn well_framed(data: Seq<u8>) -> bool {
    &&& data.len() >= HEADER_LEN
    &&& le_u32_value(data.subrange(0, 4)) == MESSAGE_TAG
    &&& le_u64_value(data.subrange(12, 20)) == data.len() - HEADER_LEN
}

/// The message that well-framed bytes carry.
pub open spec fn framed_message(data: Seq<u8>) -> MessageView {
    MessageView {
        width: le_u32_value(data.subrange(4, 8)) as u32,
        height: le_u32_value(data.subrange(8, 12)) as u32,
        buf: data.subrange(HEADER_LEN as int, data.len() as int),
    }
}

/// Whether the payload of `m` has the length that its dimensions call for in
/// a message of kind `kind`.
pub open spec fn payload_fits(m: MessageView, kind: MessageKind) -> bool {
    m.buf.len() == kind.channels() * (m.width * m.height)
}

/// What decoding `data` as a message of kind `kind` gives.
pub open spec fn decoded(data: Seq<u8>, kind: MessageKind) -> Result<MessageView, ProcessError> {
    if !well_framed(data) {
        Err(ProcessError::SchemaDecode)
    } else if !payload_fits(framed_message(data), kind) {
        Err(ProcessError::DimensionMismatch)
    } else {
        Ok(framed_message(data))
    }
}

/// Four bytes spell the word they were taken from.
pub proof fn lemma_le_u32_round_trip(x: u32)
    ensures
        le_u32(x).len() == 4,
        le_u32_value(le_u32(x)) == x,
{
}

/// A word spelt by four bytes splits back into those bytes.
pub proof fn lemma_le_u32_value_round_trip(s: Seq<u8>)
    requires
        s.len() == 4,
    ensures
        0 <= le_u32_value(s) <= u32::MAX,
        le_u32(le_u32_value(s) as u32) == s,
{
    let v = le_u32_value(s);
    let (b0, b1, b2, b3) = (s[0] as int, s[1] as int, s[2] as int, s[3] as int);
    vstd::arithmetic::div_mod::lemma_fundamental_div_mod_converse(
        v,
        256,
        b1 + 256 * b2 + 65536 * b3,
        b0,
    );
    vstd::arithmetic::div_mod::lemma_fundamental_div_mod_converse(
        b1 + 256 * b2 + 65536 * b3,
        256,
        b2 + 256 * b3,
        b1,
    );
    vstd::arithmetic::div_mod::lemma_fundamental_div_mod_converse(
        v,
        65536,
        b2 + 256 * b3,
        b0 + 256 * b1,
    );
    vstd::arithmetic::div_mod::lemma_fundamental_div_mod_converse(b2 + 256 * b3, 256, b3, b2);
    vstd::arithmetic::div_mod::lemma_fundamental_div_mod_converse(
        v,
        16777216,
        b3,
        b0 + 256 * b1 + 65536 * b2,
    );
    assert(le_u32(v as u32) =~= s);
}

/// Eight bytes spell the double word they were taken from.
pub proof fn lemma_le_u64_round_trip(x: u64)
    ensures
        le_u64(x).len() == 8,
        le_u64_value(le_u64(x)) == x,
{
    let lo = (x % 0x1_0000_0000) as u32;
    let hi = (x / 0x1_0000_0000) as u32;
    lemma_le_u32_round_trip(lo);
    lemma_le_u32_round_trip(hi);
    assert(le_u64(x).subrange(0, 4) =~= le_u32(lo));
    assert(le_u64(x).subrange(4, 8) =~= le_u32(hi));
}

/// A double word spelt by eight bytes splits back into those bytes.
pub proof fn lemma_le_u64_value_round_trip(s: Seq<u8>)
    requires
        s.len() == 8,
    ensures
        0 <= le_u64_value(s) <= u64::MAX,
        le_u64(le_u64_value(s) as u64) == s,
{
    let lo = s.subrange(0, 4);
    let hi = s.subrange(4, 8);
    lemma_le_u32_value_round_trip(lo);
    lemma_le_u32_value_round_trip(hi);
    vstd::arithmetic::div_mod::lemma_fundamental_div_mod_converse(
        le_u64_value(s),
        0x1_0000_0000,
        le_u32_value(hi),
        le_u32_value(lo),
    );
    assert(le_u64(le_u64_value(s) as u64) =~= lo + hi);
    assert(lo + hi =~= s);
}

/// Encoding and then decoding gives the message back: for every payload of
/// the length that its kind calls for, the bytes written for `width`,
/// `height` and `buf` decode to exactly these three.
pub proof fn lemma_decode_inverts_encode(width: u32, height: u32, buf: Seq<u8>, kind: MessageKind)
    requires
        buf.len() <= u64::MAX,
        buf.len() == kind.channels() * (width * height),
    ensures
        decoded(encoding(MessageView { width, height, buf }), kind) == Ok::<
            MessageView,
            ProcessError,
        >(MessageView { width, height, buf }),
{
    lemma_encoding_is_well_framed(MessageView { width, height, buf });
}

/// The bytes of a message are well framed and carry that message.
pub proof fn lemma_encoding_is_well_framed(m: MessageView)
    requires
        m.buf.len() <= u64::MAX,
    ensures
        encoding(m).len() == HEADER_LEN + m.buf.len(),
        well_framed(encoding(m)),
        framed_message(encoding(m)) == m,
{
    let data = encoding(m);
    let len = m.buf.len() as u64;
    lemma_le_u32_round_trip(MESSAGE_TAG);
    lemma_le_u32_round_trip(m.width);
    lemma_le_u32_round_trip(m.height);
    lemma_le_u64_round_trip(len);
    assert(data.subrange(0, 4) =~= le_u32(MESSAGE_TAG));
    assert(data.subrange(4, 8) =~= le_u32(m.width));
    assert(data.subrange(8, 12) =~= le_u32(m.height));
    assert(data.subrange(12, 20) =~= le_u64(len));
    assert(data.subrange(HEADER_LEN as int, data.len() as int) =~= m.buf);
}

/// Decoding and then encoding gives the bytes back: a message has no second
/// spelling.
pub proof fn lemma_encode_inverts_decode(data: Seq<u8>)
    requires
        well_framed(data),
    ensures
        encoding(framed_message(data)) == data,
{
    let m = framed_message(data);
    lemma_le_u32_value_round_trip(data.subrange(0, 4));
    lemma_le_u32_value_round_trip(data.subrange(4, 8));
    lemma_le_u32_value_round_trip(data.subrange(8, 12));
    lemma_le_u64_value_round_trip(data.subrange(12, 20));
    assert(encoding(m) =~= data.subrange(0, 4) + data.subrange(4, 8) + data.subrange(8, 12)
        + data.subrange(12, 20) + data.subrange(20, data.len() as int));
    assert(encoding(m) =~= data);
}

/// Appends the four bytes of `x`, lowest first.
fn put_u32_le(out: &mut Vec<u8>, x: u32)
    ensures
        final(out)@ == old(out)@ + le_u32(x),
{
    out.push((x % 256) as u8);
    out.push((x / 256 % 256) as u8);
    out.push((x / 65536 % 256) as u8);
    out.push((x / 16777216) as u8);
    assert(out@ =~= old(out)@ + le_u32(x));
}

/// Appends the eight bytes of `x`, lowest first.
fn put_u64_le(out: &mut Vec<u8>, x: u64)
    ensures
        final(out)@ == old(out)@ + le_u64(x),
{
    put_u32_le(out, (x % 0x1_0000_0000) as u32);
    put_u32_le(out, (x / 0x1_0000_0000) as u32);
    assert(out@ =~= old(out)@ + le_u64(x));
}

/// Reads the word spelt by the four bytes at `at`.
fn get_u32_le(data: &[u8], at: usize) -> (x: u32)
    requires
        at + 4 <= data.len(),
    ensures
        x == le_u32_value(data@.subrange(at as int, at + 4)),
{
    let b0 = data[at] as u32;
    let b1 = data[at + 1] as u32;
    let b2 = data[at + 2] as u32;
    let b3 = data[at + 3] as u32;
    b0 + 256 * b1 + 65536 * b2 + 16777216 * b3
}

/// Reads the double word spelt by the eight bytes at `at`.
fn get_u64_le(data: &[u8], at: usize) -> (x: u64)
    requires
        at + 8 <= data.len(),
    ensures
        x == le_u64_value(data@.subrange(at as int, at + 8)),
{
    let lo = get_u32_le(data, at) as u64;
    let hi = get_u32_le(data, at + 4) as u64;
    proof {
        let s = data@.subrange(at as int, at + 8);
        assert(s.subrange(0, 4) =~= data@.subrange(at as int, at + 4));
        assert(s.subrange(4, 8) =~= data@.subrange(at + 4, at + 8));
    }
    lo + 0x1_0000_0000 * hi
}

/// Writes a message as bytes.
///
/// The payload of a request holds four bytes per pixel, that of a response
/// one; `encode` writes whatever it is given, and `decode` is what checks the
/// length.
pub fn encode(width: u32, height: u32, buf: &[u8]) -> (out: Vec<u8>)
    ensures
        out@ == encoding(MessageView { width, height, buf: buf@ }),
{
    let mut out: Vec<u8> = Vec::with_capacity(HEADER_LEN);
    put_u32_le(&mut out, MESSAGE_TAG);
    put_u32_le(&mut out, width);
    put_u32_le(&mut out, height);
    put_u64_le(&mut out, buf.len() as u64);
    out.extend_from_slice(buf);
    assert(out@ =~= encoding(MessageView { width, height, buf: buf@ }));
    out
}

/// Reads a message of kind `kind` from bytes.
///
/// Fails with `SchemaDecode` when `data` is not a header followed by exactly
/// the payload that the header announces, and otherwise with
/// `DimensionMismatch` when the payload does not hold the bytes per pixel of
/// `kind` for every pixel of the announced dimensions.
pub fn decode(data: &[u8], kind: MessageKind) -> (res: Result<Message, ProcessError>)
    ensures
        match res {
            Ok(m) => decoded(data@, kind) == Ok::<MessageView, ProcessError>(m@),
            Err(e) => decoded(data@, kind) == Err::<MessageView, ProcessError>(e),
        },
{
    if data.len() < HEADER_LEN {
        return Err(ProcessError::SchemaDecode);
    }
    let tag = get_u32_le(data, 0);
    let width = get_u32_le(data, 4);
    let height = get_u32_le(data, 8);
    let announced = get_u64_le(data, 12);
    if tag != MESSAGE_TAG || announced != (data.len() - HEADER_LEN) as u64 {
        return Err(ProcessError::SchemaDecode);
    }
    let payload = vstd::slice::slice_subrange(data, HEADER_LEN, data.len());
    if !has_payload_len(payload.len(), width, height, kind) {
        return Err(ProcessError::DimensionMismatch);
    }
    Ok(Message { width, height, buf: vstd::slice::slice_to_vec(payload) })
}

/// Whether `len` bytes are the payload of a `width` by `height` message of
/// kind `kind`. The product is formed in 128 bits, where it cannot overflow.
pub fn has_payload_len(len: usize, width: u32, height: u32, kind: MessageKind) -> (fits: bool)
    ensures
        fits <==> len == kind.channels() * (width * height),
{
    assert(width * height <= 0xffff_ffff * 0xffff_ffff) by (nonlinear_arith)
        requires
            width <= 0xffff_ffff,
            height <= 0xffff_ffff,
    ;
    let pixels: u128 = width as u128 * height as u128;
    len as u128 == kind.channel_count() as u128 * pixels
}

} // verus!

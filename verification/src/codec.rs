//! Length-prefixed frames over byte buffers.
//!
//! A frame is the length of its payload as a little-endian `u32`, then the
//! payload itself.

use bytes::{Buf, BufMut, Bytes, BytesMut};
use vstd::prelude::*;
use vstd::string::StringExecFns;

use crate::text::{decimal, push_decimal};

verus! {

/// A growable byte buffer of the `bytes` crate.
#[verifier::external_type_specification]
#[verifier::external_body]
pub struct ExBytesMut(bytes::BytesMut);

/// A frozen byte buffer of the `bytes` crate.
#[verifier::external_type_specification]
#[verifier::external_body]
pub struct ExBytes(bytes::Bytes);

/// The bytes that a `BytesMut` holds.
pub uninterp spec fn buffer(b: BytesMut) -> Seq<u8>;

/// The bytes that a `Bytes` holds.
pub uninterp spec fn frozen(b: Bytes) -> Seq<u8>;

/// `BytesMut::with_capacity` makes an empty buffer. A capacity beyond
/// `isize::MAX` is left out: no allocation can be that large.
#[verifier::external_body]
fn buffer_with_capacity(capacity: usize) -> (b: BytesMut)
    requires
        capacity <= isize::MAX,
    ensures
        buffer(b) == Seq::<u8>::empty(),
{
    BytesMut::with_capacity(capacity)
}

/// `BytesMut::len` counts the bytes held.
#[verifier::external_body]
fn buffer_len(b: &BytesMut) -> (n: usize)
    ensures
        n == buffer(*b).len(),
{
    b.len()
}

/// `BytesMut` dereferences to the bytes held.
#[verifier::external_body]
fn buffer_bytes(b: &BytesMut) -> (s: &[u8])
    ensures
        s@ == buffer(*b),
{
    b
}

/// `BytesMut::reserve` makes room and keeps the bytes held.
#[verifier::external_body]
fn buffer_reserve(b: &mut BytesMut, additional: usize)
    requires
        buffer(*old(b)).len() + additional <= isize::MAX,
    ensures
        buffer(*final(b)) == buffer(*old(b)),
{
    b.reserve(additional)
}

/// `Buf::advance` on a `BytesMut` drops bytes from the front.
#[verifier::external_body]
fn buffer_advance(b: &mut BytesMut, n: usize)
    requires
        n <= buffer(*old(b)).len(),
    ensures
        buffer(*final(b)) == buffer(*old(b)).skip(n as int),
{
    b.advance(n)
}

/// `BytesMut::split_to` takes bytes from the front and leaves the rest.
#[verifier::external_body]
fn buffer_split_to(b: &mut BytesMut, n: usize) -> (front: BytesMut)
    requires
        n <= buffer(*old(b)).len(),
    ensures
        buffer(front) == buffer(*old(b)).take(n as int),
        buffer(*final(b)) == buffer(*old(b)).skip(n as int),
{
    b.split_to(n)
}

/// `BufMut::put_u32_le` on a `BytesMut` appends the four bytes of `n`, least
/// significant first.
#[verifier::external_body]
fn buffer_put_u32_le(b: &mut BytesMut, n: u32)
    requires
        buffer(*old(b)).len() + 4 <= isize::MAX,
    ensures
        buffer(*final(b)) == buffer(*old(b)) + le_bytes(n),
{
    b.put_u32_le(n)
}

/// `BytesMut::extend_from_slice` appends the bytes given.
#[verifier::external_body]
fn buffer_extend(b: &mut BytesMut, s: &[u8])
    requires
        buffer(*old(b)).len() + s@.len() <= isize::MAX,
    ensures
        buffer(*final(b)) == buffer(*old(b)) + s@,
{
    b.extend_from_slice(s)
}

/// `BytesMut::freeze` keeps the bytes held.
#[verifier::external_body]
fn buffer_freeze(b: BytesMut) -> (f: Bytes)
    ensures
        frozen(f) == buffer(b),
{
    b.freeze()
}

/// `Bytes` dereferences to the bytes held.
#[verifier::external_body]
fn frozen_bytes(b: &Bytes) -> (s: &[u8])
    ensures
        s@ == frozen(*b),
{
    b
}

/// The four bytes of `n`, least significant first.
pub open spec fn le_bytes(n: u32) -> Seq<u8> {
    seq![
        (n % 256) as u8,
        (n / 256 % 256) as u8,
        (n / 65536 % 256) as u8,
        (n / 16777216) as u8,
    ]
}

/// The number whose four bytes are `s`, least significant first.
pub open spec fn le_value(s: Seq<u8>) -> nat {
    (s[0] + 256 * s[1] + 65536 * s[2] + 16777216 * s[3]) as nat
}

/// Bytes in front of every payload.
pub const LENGTH_PREFIX_SIZE: usize = 4;

/// Largest payload that a codec accepts unless told otherwise: 16 MiB.
pub const DEFAULT_MAX_LENGTH: usize = 16777216;

/// The frame of `payload`. The prefix holds the payload's length modulo 2^32.
pub open spec fn frame(payload: Seq<u8>) -> Seq<u8> {
    le_bytes((payload.len() % 0x1_0000_0000) as u32) + payload
}

/// Why a frame was refused.
#[derive(Debug, Clone, Copy, PartialEq, Eq, Structural)]
pub enum FrameError {
    /// An incoming frame announces more than the codec accepts.
    FrameTooLarge { length: usize, max: usize },
    /// An outgoing payload is larger than the codec accepts.
    PayloadTooLarge { length: usize, max: usize },
}

/// The wording of a refusal: what is too large, its length and the limit.
pub open spec fn refusal(what: Seq<char>, length: usize, max: usize) -> Seq<char> {
    what + decimal(length as nat) + " > "@ + decimal(max as nat)
}

impl FrameError {
    /// The error in words.
    pub open spec fn words(self) -> Seq<char> {
        match self {
            FrameError::FrameTooLarge { length, max } => refusal("frame too large: "@, length, max),
            FrameError::PayloadTooLarge { length, max } => refusal(
                "payload too large: "@,
                length,
                max,
            ),
        }
    }

    /// Puts the error in words.
    pub fn message(&self) -> (s: String)
        ensures
            s@ == self.words(),
    {
        let (what, length, max): (&str, usize, usize) = match self {
            FrameError::FrameTooLarge { length, max } => ("frame too large: ", *length, *max),
            FrameError::PayloadTooLarge { length, max } => ("payload too large: ", *length, *max),
        };
        let mut s = what.to_string();
        push_decimal(&mut s, length as u64);
        s.append(" > ");
        push_decimal(&mut s, max as u64);
        s
    }
}

/// Cuts a byte stream into frames and wraps payloads into frames.
#[derive(Debug)]
pub struct LengthPrefixedCodec {
    max_length: usize,
}

impl Default for LengthPrefixedCodec {
    /// A codec with the default limit.
    fn default() -> (c: Self)
        ensures
            c.limit() == DEFAULT_MAX_LENGTH,
    {
        LengthPrefixedCodec::new()
    }
}

/// Where `src` holds only a part of a frame that the limit admits, the whole
/// frame is no larger than memory can hold. On a 64-bit machine every frame is
/// so.
pub open spec fn frame_fits(src: Seq<u8>, max: usize) -> bool {
    4 <= src.len() < 4 + le_value(src) && le_value(src) <= max ==> 4 + le_value(src) <= isize::MAX
}

/// Where the limit admits `item`, its frame fits behind `dst`.
pub open spec fn payload_fits(item: Seq<u8>, dst: Seq<u8>, max: usize) -> bool {
    item.len() <= max ==> dst.len() + 4 + item.len() <= isize::MAX
}

/// What encoding `item` behind the bytes `dst` does under the limit `max`: the
/// result, and the bytes then.
pub open spec fn encoded(dst: Seq<u8>, item: Seq<u8>, max: usize) -> (
    Result<(), FrameError>,
    Seq<u8>,
) {
    if item.len() > max {
        (Err(FrameError::PayloadTooLarge { length: item.len() as usize, max }), dst)
    } else {
        (Ok(()), dst + frame(item))
    }
}

/// What decoding does to the buffered bytes `src` under the limit `max`:
/// the result, and the bytes left.
pub open spec fn decoded(src: Seq<u8>, max: usize) -> (Result<Option<Seq<u8>>, FrameError>, Seq<u8>) {
    if src.len() < 4 {
        (Ok(None), src)
    } else {
        let length = le_value(src);
        if length > max {
            (Err(FrameError::FrameTooLarge { length: length as usize, max }), src)
        } else if src.len() < 4 + length {
            (Ok(None), src)
        } else {
            (Ok(Some(src.subrange(4, 4 + length as int))), src.skip(4 + length as int))
        }
    }
}

/// Reads the length that a frame's prefix announces.
fn announced(head: &[u8]) -> (n: usize)
    requires
        head@.len() >= 4,
    ensures
        n == le_value(head@),
{
    head[0] as usize + 256 * head[1] as usize + 65536 * head[2] as usize + 16777216
        * head[3] as usize
}

impl LengthPrefixedCodec {
    /// The largest payload accepted.
    pub closed spec fn limit(&self) -> usize {
        self.max_length
    }

    /// A codec that accepts payloads of up to 16 MiB.
    pub fn new() -> (c: Self)
        ensures
            c.limit() == DEFAULT_MAX_LENGTH,
    {
        LengthPrefixedCodec { max_length: DEFAULT_MAX_LENGTH }
    }

    /// A codec that accepts payloads of up to `max_length` bytes.
    pub fn with_max_length(max_length: usize) -> (c: Self)
        ensures
            c.limit() == max_length,
    {
        LengthPrefixedCodec { max_length }
    }

    /// Whether memory can hold the whole of a frame of which `src` holds only a
    /// part, or there is no such frame.
    pub fn decode_fits(&self, src: &BytesMut) -> (b: bool)
        ensures
            b == frame_fits(buffer(*src), self.limit()),
    {
        let have: usize = buffer_len(src);
        if have < LENGTH_PREFIX_SIZE {
            return true;
        }
        let length: usize = announced(buffer_bytes(src));
        length > self.max_length || have - LENGTH_PREFIX_SIZE >= length || length
            <= isize::MAX as usize - LENGTH_PREFIX_SIZE
    }

    /// Takes the next complete payload off the front of `src`, if there is one.
    /// Nothing is taken while the frame is incomplete or when it is refused.
    pub fn decode(&mut self, src: &mut BytesMut) -> (r: Result<Option<BytesMut>, FrameError>)
        requires
            frame_fits(buffer(*old(src)), old(self).limit()),
        ensures
            final(self).limit() == old(self).limit(),
            (match r {
                Ok(Some(p)) => decoded(buffer(*old(src)), old(self).limit()) == (
                    Ok::<Option<Seq<u8>>, FrameError>(Some(buffer(p))),
                    buffer(*final(src)),
                ),
                Ok(None) => decoded(buffer(*old(src)), old(self).limit()) == (
                    Ok::<Option<Seq<u8>>, FrameError>(None),
                    buffer(*final(src)),
                ),
                Err(e) => decoded(buffer(*old(src)), old(self).limit()) == (
                    Err::<Option<Seq<u8>>, FrameError>(e),
                    buffer(*final(src)),
                ),
            }),
    {
        let have: usize = buffer_len(src);
        if have < LENGTH_PREFIX_SIZE {
            return Ok(None);
        }
        let length: usize = announced(buffer_bytes(src));
        if length > self.max_length {
            return Err(FrameError::FrameTooLarge { length, max: self.max_length });
        }
        if have - LENGTH_PREFIX_SIZE < length {
            buffer_reserve(src, length - (have - LENGTH_PREFIX_SIZE));
            return Ok(None);
        }
        buffer_advance(src, LENGTH_PREFIX_SIZE);
        let payload = buffer_split_to(src, length);
        assert(buffer(payload) == buffer(*old(src)).subrange(4, 4 + length as int));
        assert(buffer(*src) == buffer(*old(src)).skip(4 + length as int));
        Ok(Some(payload))
    }

    /// Whether memory can hold the frame of `item` behind `dst`, or the limit
    /// does not admit `item`.
    pub fn encode_fits(&self, item: &Bytes, dst: &BytesMut) -> (b: bool)
        ensures
            b == payload_fits(frozen(*item), buffer(*dst), self.limit()),
    {
        let len: usize = frozen_bytes(item).len();
        let room: usize = isize::MAX as usize - LENGTH_PREFIX_SIZE;
        len > self.max_length || (len <= room && buffer_len(dst) <= room - len)
    }

    /// Appends the frame of `item` to `dst`.
    pub fn encode(&mut self, item: Bytes, dst: &mut BytesMut) -> (r: Result<(), FrameError>)
        requires
            payload_fits(frozen(item), buffer(*old(dst)), old(self).limit()),
        ensures
            final(self).limit() == old(self).limit(),
            (r, buffer(*final(dst))) == encoded(
                buffer(*old(dst)),
                frozen(item),
                old(self).limit(),
            ),
    {
        let bytes = frozen_bytes(&item);
        let len: usize = bytes.len();
        if len > self.max_length {
            return Err(FrameError::PayloadTooLarge { length: len, max: self.max_length });
        }
        buffer_reserve(dst, LENGTH_PREFIX_SIZE + len);
        buffer_put_u32_le(dst, (len as u64 % 0x1_0000_0000) as u32);
        buffer_extend(dst, bytes);
        assert(buffer(*dst) == buffer(*old(dst)) + frame(frozen(item)));
        Ok(())
    }
}

/// The frame of a serialised message.
pub fn encode_message(json: &[u8]) -> (b: Bytes)
    requires
        json@.len() + 4 <= isize::MAX,
    ensures
        frozen(b) == frame(json@),
{
    let mut buf = buffer_with_capacity(LENGTH_PREFIX_SIZE + json.len());
    buffer_put_u32_le(&mut buf, (json.len() as u64 % 0x1_0000_0000) as u32);
    buffer_extend(&mut buf, json);
    assert(buffer(buf) == frame(json@));
    buffer_freeze(buf)
}

/// The four bytes of a number give the number back.
proof fn lemma_le_value(n: u32, rest: Seq<u8>)
    ensures
        le_value(le_bytes(n) + rest) == n,
{
    let s = le_bytes(n) + rest;
    assert(s[0] == n % 256);
    assert(s[1] == n / 256 % 256);
    assert(s[2] == n / 65536 % 256);
    assert(s[3] == n / 16777216);
}

/// Decoding a frame gives its payload back, and leaves what follows the frame.
proof fn lemma_frame_decodes(payload: Seq<u8>, rest: Seq<u8>, max: usize)
    requires
        payload.len() <= max,
        payload.len() <= u32::MAX,
    ensures
        frame_fits(frame(payload) + rest, max),
        decoded(frame(payload) + rest, max) == (
            Ok::<Option<Seq<u8>>, FrameError>(Some(payload)),
            rest,
        ),
{
    let n = (payload.len() % 0x1_0000_0000) as u32;
    let src = frame(payload) + rest;
    assert(src == le_bytes(n) + (payload + rest));
    lemma_le_value(n, payload + rest);
    assert(src.subrange(4, 4 + payload.len() as int) == payload);
    assert(src.skip(4 + payload.len() as int) == rest);
}

/// What was encoded can be decoded, whatever follows it: the payload comes
/// back, and what follows stays. A payload whose length does not fit into the
/// prefix is left out.
pub proof fn law_decode_undoes_encode(item: Seq<u8>, rest: Seq<u8>, max: usize)
    requires
        encoded(Seq::empty(), item, max).0 is Ok,
        item.len() <= u32::MAX,
    ensures
        frame_fits(encoded(Seq::empty(), item, max).1 + rest, max),
        decoded(encoded(Seq::empty(), item, max).1 + rest, max) == (
            Ok::<Option<Seq<u8>>, FrameError>(Some(item)),
            rest,
        ),
{
    assert(Seq::<u8>::empty() + frame(item) == frame(item));
    lemma_frame_decodes(item, rest, max);
}

/// As long as part of an admissible frame is missing, decoding takes nothing
/// and reports nothing.
pub proof fn law_partial_frame_waits(payload: Seq<u8>, have: int, max: usize)
    requires
        payload.len() <= max,
        payload.len() <= u32::MAX,
        0 <= have < 4 + payload.len(),
    ensures
        decoded(frame(payload).take(have), max) == (
            Ok::<Option<Seq<u8>>, FrameError>(None),
            frame(payload).take(have),
        ),
{
    if have >= 4 {
        let n = (payload.len() % 0x1_0000_0000) as u32;
        let src = frame(payload).take(have);
        assert(src == le_bytes(n) + payload.take(have - 4));
        lemma_le_value(n, payload.take(have - 4));
    }
}

/// A frame that announces more than the limit is refused whatever follows its
/// prefix, and stays in the buffer.
pub proof fn law_oversized_frame_refused(length: u32, rest: Seq<u8>, max: usize)
    requires
        length > max,
    ensures
        decoded(le_bytes(length) + rest, max) == (
            Err::<Option<Seq<u8>>, FrameError>(
                FrameError::FrameTooLarge { length: length as usize, max },
            ),
            le_bytes(length) + rest,
        ),
{
    lemma_le_value(length, rest);
}

/// The frames of `payloads`, one after the other.
pub open spec fn frames(payloads: Seq<Seq<u8>>) -> Seq<u8>
    decreases payloads.len(),
{
    if payloads.len() == 0 {
        Seq::empty()
    } else {
        frame(payloads[0]) + frames(payloads.drop_first())
    }
}

/// The payloads that `count` decodings take off `src`.
pub open spec fn taken(src: Seq<u8>, max: usize, count: nat) -> Seq<Seq<u8>>
    decreases count,
{
    if count == 0 {
        seq![]
    } else {
        match decoded(src, max) {
            (Ok(Some(p)), left) => seq![p] + taken(left, max, (count - 1) as nat),
            _ => seq![],
        }
    }
}

/// A stream of frames decodes to its payloads, in order.
pub proof fn law_stream_decodes_in_order(payloads: Seq<Seq<u8>>, max: usize)
    requires
        forall|i: int|
            0 <= i < payloads.len() ==> (#[trigger] payloads[i]).len() <= max && payloads[i].len()
                <= u32::MAX,
    ensures
        taken(frames(payloads), max, payloads.len()) == payloads,
    decreases payloads.len(),
{
    if payloads.len() > 0 {
        let tail = payloads.drop_first();
        assert forall|i: int| 0 <= i < tail.len() implies (#[trigger] tail[i]).len() <= max
            && tail[i].len() <= u32::MAX by {
            assert(tail[i] == payloads[i + 1]);
        }
        law_stream_decodes_in_order(tail, max);
        lemma_frame_decodes(payloads[0], frames(tail), max);
        assert(taken(frames(payloads), max, payloads.len()) == seq![payloads[0]] + tail);
    } else {
        assert(taken(frames(payloads), max, payloads.len()) == payloads);
    }
}

/// The payload follows the four bytes of the prefix.
pub proof fn law_payload_follows_prefix(payload: Seq<u8>)
    ensures
        frame(payload).skip(4) == payload,
{
}

/// A frame's prefix is the length of its payload, least significant byte first.
pub proof fn law_prefix_is_the_length(payload: Seq<u8>)
    requires
        payload.len() <= u32::MAX,
    ensures
        frame(payload).len() == 4 + payload.len(),
        frame(payload)[0] + 256 * frame(payload)[1] + 65536 * frame(payload)[2] + 16777216
            * frame(payload)[3] == payload.len(),
{
    let n = (payload.len() % 0x1_0000_0000) as u32;
    lemma_le_value(n, payload);
}

/// A number's four bytes make up the number, least significant first, and are read
/// so.
pub proof fn law_bytes_make_up_the_number(n: u32, s: Seq<u8>)
    requires
        s.len() >= 4,
    ensures
        le_bytes(n).len() == 4,
        le_bytes(n)[0] + 256 * le_bytes(n)[1] + 65536 * le_bytes(n)[2] + 16777216 * le_bytes(n)[3]
            == n,
        le_value(s) == s[0] + 256 * s[1] + 65536 * s[2] + 16777216 * s[3],
{
    lemma_le_value(n, Seq::empty());
    assert(le_bytes(n) + Seq::<u8>::empty() =~= le_bytes(n));
}

/// Without a whole prefix, decoding takes nothing and reports nothing.
pub proof fn law_partial_prefix_waits(src: Seq<u8>, max: usize)
    requires
        src.len() < 4,
    ensures
        decoded(src, max) == (Ok::<Option<Seq<u8>>, FrameError>(None), src),
{
}

/// What precedes a frame is not touched by encoding, and makes no difference to
/// it. A payload beyond the limit is refused, with its length, and writes nothing.
pub proof fn law_encoding_appends(dst: Seq<u8>, item: Seq<u8>, max: usize)
    requires
        item.len() <= usize::MAX,
    ensures
        item.len() <= max ==> encoded(dst, item, max).0 is Ok && encoded(dst, item, max).1 == dst
            + encoded(Seq::empty(), item, max).1,
        item.len() > max ==> encoded(dst, item, max).1 == dst && encoded(dst, item, max).0 == Err::<
            (),
            FrameError,
        >(FrameError::PayloadTooLarge { length: item.len() as usize, max }),
{
    assert(Seq::<u8>::empty() + frame(item) =~= frame(item));
}

/// A refusal names the length and the limit.
pub proof fn law_refusals_name_the_lengths(length: usize, max: usize)
    ensures
        (FrameError::FrameTooLarge { length, max }).words() == "frame too large: "@ + decimal(
            length as nat,
        ) + " > "@ + decimal(max as nat),
        (FrameError::PayloadTooLarge { length, max }).words() == "payload too large: "@ + decimal(
            length as nat,
        ) + " > "@ + decimal(max as nat),
{
}

/// Memory stops a frame exactly where it could not hold it: a frame of which a
/// part is missing and that the limit admits, or one to be written.
pub proof fn law_only_memory_stops_frames(src: Seq<u8>, item: Seq<u8>, dst: Seq<u8>, max: usize)
    ensures
        frame_fits(src, max) <==> src.len() < 4 || le_value(src) > max || src.len() >= 4 + le_value(
            src,
        ) || 4 + le_value(src) <= isize::MAX,
        payload_fits(item, dst, max) <==> item.len() > max || dst.len() + 4 + item.len()
            <= isize::MAX,
{
}

/// A length takes four bytes, and without another limit a payload holds sixteen
/// MiB at most.
pub proof fn law_lengths_are_limited()
    ensures
        LENGTH_PREFIX_SIZE == 4,
        DEFAULT_MAX_LENGTH == 16 * 1024 * 1024,
{
}

} // verus!

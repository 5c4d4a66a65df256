use vstd::prelude::*;
use bytes::BufMut;
use bytes::BytesMut;
use byteorder::ByteOrder;
use crate::process::ProcessMessage;
use crate::protocol::{encode_command, parse_message, WorkerCommand, message_parses, command_json};

verus! {

#[verifier::external_type_specification]
#[verifier::external_body]
pub struct ExBytesMut(BytesMut);

/// The bytes that a buffer holds.
pub uninterp spec fn buf_bytes(b: BytesMut) -> Seq<u8>;

/// Relies on `BytesMut::len`: the number of bytes held.
#[verifier::external_body]
fn buf_len(b: &BytesMut) -> (r: usize)
    ensures
        r == buf_bytes(*b).len(),
{
    b.len()
}

/// Relies on `<BytesMut as AsRef<[u8]>>::as_ref`: the bytes held, as a slice.
#[verifier::external_body]
fn buf_slice(b: &BytesMut) -> (r: &[u8])
    ensures
        r@ == buf_bytes(*b),
{
    b.as_ref()
}

/// Relies on `BytesMut::split_to`: the first `at` bytes are handed out and
/// the rest stay.
#[verifier::external_body]
fn buf_split_to(b: &mut BytesMut, at: usize) -> (r: BytesMut)
    requires
        at <= buf_bytes(*old(b)).len(),
    ensures
        buf_bytes(r) == buf_bytes(*old(b)).subrange(0, at as int),
        buf_bytes(*final(b)) == buf_bytes(*old(b)).subrange(at as int, buf_bytes(*old(b)).len() as int),
{
    b.split_to(at)
}

/// Relies on `BytesMut::extend_from_slice`: the bytes are appended.
#[verifier::external_body]
fn buf_extend(b: &mut BytesMut, s: &[u8])
    ensures
        buf_bytes(*final(b)) == buf_bytes(*old(b)) + s@,
{
    b.extend_from_slice(s)
}

/// Relies on `BufMut::put_u16` for `BytesMut`: the value is appended in
/// big-endian order.
#[verifier::external_body]
fn buf_put_u16(b: &mut BytesMut, n: u16)
    ensures
        buf_bytes(*final(b)) == buf_bytes(*old(b)) + seq![(n / 256) as u8, (n % 256) as u8],
{
    b.put_u16(n)
}

/// Relies on `byteorder::BigEndian::read_u16`: the first two bytes read as a
/// big-endian integer.
#[verifier::external_body]
fn read_be_u16(b: &[u8]) -> (r: u16)
    requires
        b@.len() >= 2,
    ensures
        r == be16(b@[0], b@[1]),
{
    byteorder::BigEndian::read_u16(b)
}

/// A big-endian 16-bit length prefix.
pub open spec fn be16(hi: u8, lo: u8) -> nat {
    hi as nat * 256 + lo as nat
}

/// The largest payload that a frame can carry.
pub const MAX_FRAME: usize = 65535;

/// A payload with its length prefix.
pub open spec fn frame(p: Seq<u8>) -> Seq<u8> {
    seq![(p.len() / 256) as u8, (p.len() % 256) as u8] + p
}

/// The first frame of a stream: its payload and what follows it, or `None`
/// while the stream does not yet hold a whole frame.
pub open spec fn split_frame(b: Seq<u8>) -> Option<(Seq<u8>, Seq<u8>)> {
    if b.len() < 2 || b.len() < 2 + be16(b[0], b[1]) {
        None
    } else {
        let end = 2 + be16(b[0], b[1]);
        Some((b.subrange(2, end as int), b.subrange(end as int, b.len() as int)))
    }
}

/// The payloads of a sequence of frames, in order.
pub open spec fn frames(ps: Seq<Seq<u8>>) -> Seq<u8>
    decreases ps.len(),
{
    if ps.len() == 0 {
        Seq::empty()
    } else {
        frame(ps[0]) + frames(ps.drop_first())
    }
}

/// All the whole frames at the start of a stream, in order.
pub open spec fn unframe(b: Seq<u8>) -> Seq<Seq<u8>>
    decreases b.len(),
{
    match split_frame(b) {
        Some((p, rest)) => if rest.len() < b.len() {
            seq![p] + unframe(rest)
        } else {
            Seq::empty()
        },
        None => Seq::empty(),
    }
}

/// A frame's payload comes back out of the stream whole, and what follows the
/// frame is left for the next one.
pub proof fn lemma_frame_round_trip(p: Seq<u8>, rest: Seq<u8>)
    requires
        p.len() <= MAX_FRAME,
    ensures
        split_frame(frame(p) + rest) == Some((p, rest)),
{
    let b = frame(p) + rest;
    let n = p.len() as int;
    assert(be16((n / 256) as u8, (n % 256) as u8) == n) by (nonlinear_arith)
        requires
            0 <= n <= 65535,
    ;
    assert(b[0] == (n / 256) as u8);
    assert(b[1] == (n % 256) as u8);
    assert(b.subrange(2, 2 + n) =~= p);
    assert(b.subrange(2 + n, b.len() as int) =~= rest);
}

/// A stream cut anywhere inside a frame holds no whole frame.
pub proof fn lemma_partial_frame(p: Seq<u8>, k: int)
    requires
        p.len() <= MAX_FRAME,
        0 <= k < frame(p).len(),
    ensures
        split_frame(frame(p).subrange(0, k)) is None,
{
    let n = p.len() as int;
    assert(be16((n / 256) as u8, (n % 256) as u8) == n) by (nonlinear_arith)
        requires
            0 <= n <= 65535,
    ;
}

/// Frames written one after another are read back in the same order, none
/// lost, whatever incomplete frame follows them.
pub proof fn lemma_frames_in_order(ps: Seq<Seq<u8>>, tail: Seq<u8>)
    requires
        forall|i: int| 0 <= i < ps.len() ==> (#[trigger] ps[i]).len() <= MAX_FRAME,
        split_frame(tail) is None,
    ensures
        unframe(frames(ps) + tail) == ps,
    decreases ps.len(),
{
    if ps.len() == 0 {
        assert(frames(ps) + tail =~= tail);
    } else {
        let rest = frames(ps.drop_first()) + tail;
        assert(frames(ps) + tail =~= frame(ps[0]) + rest);
        lemma_frame_round_trip(ps[0], rest);
        lemma_frames_in_order(ps.drop_first(), tail);
        assert(seq![ps[0]] + ps.drop_first() =~= ps);
    }
}

/// Why a stream from a worker could not be read.
#[derive(Debug, Clone, Copy, PartialEq, Eq, Structural)]
pub enum CodecError {
    /// A whole frame held no message that a worker sends.
    InvalidMessage,
}

/// Takes the first whole frame off the buffer and returns its payload; leaves
/// the buffer as it is while it holds no whole frame.
pub fn decode_frame(src: &mut BytesMut) -> (r: Option<BytesMut>)
    ensures
        split_frame(buf_bytes(*old(src))) is None ==> r is None && buf_bytes(*final(src)) == buf_bytes(*old(src)),
        split_frame(buf_bytes(*old(src))) matches Some((p, rest)) ==> r matches Some(f)
            && buf_bytes(f) == p && buf_bytes(*final(src)) == rest,
{
    let n = buf_len(src);
    if n < 2 {
        return None;
    }
    let size = read_be_u16(buf_slice(src)) as usize;
    if n >= size + 2 {
        let _ = buf_split_to(src, 2);
        let payload = buf_split_to(src, size);
        proof {
            let b = buf_bytes(*old(src));
            assert(b.subrange(2, b.len() as int).subrange(0, size as int) =~= b.subrange(2, 2 + size));
            assert(b.subrange(2, b.len() as int).subrange(size as int, b.len() - 2) =~= b.subrange(
                2 + size,
                b.len() as int,
            ));
        }
        Some(payload)
    } else {
        None
    }
}

/// Appends the frame of a payload to the buffer.
pub fn encode_frame(payload: &[u8], dst: &mut BytesMut)
    requires
        payload@.len() <= MAX_FRAME,
    ensures
        buf_bytes(*final(dst)) == buf_bytes(*old(dst)) + frame(payload@),
{
    let n = payload.len() as u16;
    buf_put_u16(dst, n);
    buf_extend(dst, payload);
    assert(buf_bytes(*final(dst)) =~= buf_bytes(*old(dst)) + frame(payload@));
}

/// Frames the traffic between a supervisor and its worker: commands go out,
/// messages come in.
pub struct TransportCodec;

impl TransportCodec {
    /// Reads the next message off the buffer. Nothing is taken while the
    /// buffer holds no whole frame; a whole frame is taken, and its payload
    /// must be a worker message.
    pub fn decode(&mut self, src: &mut BytesMut) -> (r: Result<Option<ProcessMessage>, CodecError>)
        ensures
            split_frame(buf_bytes(*old(src))) is None ==> r == Ok::<Option<ProcessMessage>, CodecError>(None)
                && buf_bytes(*final(src)) == buf_bytes(*old(src)),
            split_frame(buf_bytes(*old(src))) matches Some((p, rest)) ==> {
                &&& buf_bytes(*final(src)) == rest
                &&& r matches Ok(Some(ProcessMessage::Message(m))) ==> message_parses(p, m)
                &&& r matches Ok(Some(pm)) ==> pm is Message
                &&& r is Ok <==> exists|m| message_parses(p, m)
                &&& r is Err ==> r == Err::<Option<ProcessMessage>, CodecError>(CodecError::InvalidMessage)
                &&& r != Ok::<Option<ProcessMessage>, CodecError>(None)
            },
    {
        match decode_frame(src) {
            None => Ok(None),
            Some(payload) => match parse_message(buf_slice(&payload)) {
                Some(m) => Ok(Some(ProcessMessage::Message(m))),
                None => Err(CodecError::InvalidMessage),
            },
        }
    }

    /// Appends the frame of a command to the buffer.
    pub fn encode(&mut self, msg: WorkerCommand, dst: &mut BytesMut) -> (r: Result<(), CodecError>)
        ensures
            r is Ok,
            buf_bytes(*final(dst)) == buf_bytes(*old(dst)) + frame(command_json(msg)),
    {
        let payload = encode_command(msg);
        encode_frame(payload.as_slice(), dst);
        Ok(())
    }
}

} // verus!

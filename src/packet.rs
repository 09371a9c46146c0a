use vstd::prelude::*;

use crate::body::{
    bits_of_i64, body_bytes, heartbeat_bytes, lemma_body_round_trip, lemma_varint_len, parse_body,
    timestamp_bytes, Body, Heartbeat, MsgBody, Timestamp,
};
use crate::error::PacketError;
use crate::misc::{u24, U24_MAX};

verus! {

/// The fixed magic number that opens every header.
pub const MAGIC: u32 = 0x0d000721;

/// The protocol version; bump it when a message kind or field number changes.
pub const VERSION: u8 = 1;

/// Size of an encoded header in bytes.
pub const HEAD_LEN: usize = 16;

#[verifier::external_type_specification]
#[verifier::external_body]
pub struct ExBytesMut(bytes::BytesMut);

/// The bytes a buffer holds, front first.
pub uninterp spec fn buffer_bytes(b: bytes::BytesMut) -> Seq<u8>;

/// The CRC-32 checksum of a byte sequence.
pub uninterp spec fn crc32_of(b: Seq<u8>) -> u32;

/// Relies on `BytesMut::len`: the number of bytes held.
#[verifier::external_body]
fn buffer_len(b: &bytes::BytesMut) -> (r: usize)
    ensures
        r == buffer_bytes(*b).len(),
{
    b.len()
}

/// Relies on `BufMut::remaining_mut` of `BytesMut`: `isize::MAX` less the length.
#[verifier::external_body]
fn buffer_free(b: &bytes::BytesMut) -> (r: usize)
    ensures
        r as int == isize::MAX as int - buffer_bytes(*b).len(),
{
    bytes::BufMut::remaining_mut(b)
}

/// Relies on `BytesMut`'s deref to its bytes: copies the first `n` of them.
#[verifier::external_body]
fn buffer_peek(b: &bytes::BytesMut, n: usize) -> (r: Vec<u8>)
    requires
        n <= buffer_bytes(*b).len(),
    ensures
        r@ == buffer_bytes(*b).take(n as int),
{
    b[..n].to_vec()
}

/// Relies on `Buf::advance` of `BytesMut`: drops the first `n` bytes.
#[verifier::external_body]
fn buffer_advance(b: &mut bytes::BytesMut, n: usize)
    requires
        n <= buffer_bytes(*old(b)).len(),
    ensures
        buffer_bytes(*final(b)) == buffer_bytes(*old(b)).skip(n as int),
{
    bytes::Buf::advance(b, n)
}

/// Relies on `BytesMut::extend_from_slice`: appends the bytes at the back.
#[verifier::external_body]
fn buffer_put(b: &mut bytes::BytesMut, s: &[u8])
    ensures
        buffer_bytes(*final(b)) == buffer_bytes(*old(b)) + s@,
{
    b.extend_from_slice(s)
}

/// Relies on `crc32fast::hash`: the checksum depends on the bytes alone.
#[verifier::external_body]
fn crc32(b: &[u8]) -> (r: u32)
    ensures
        r == crc32_of(b@),
{
    crc32fast::hash(b)
}

/// Message kinds carried in the header's type byte.
#[derive(Clone, Copy, PartialEq, Eq, Structural, Debug)]
pub enum MsgType {
    UNSPECIFIED,
    REQUEST,
    RESPONSE,
    ANOUNCEMENT,
    HEARTBEAT,
}

/// The wire code of a message kind.
pub open spec fn type_code(t: MsgType) -> u8 {
    match t {
        MsgType::UNSPECIFIED => 0,
        MsgType::REQUEST => 1,
        MsgType::RESPONSE => 2,
        MsgType::ANOUNCEMENT => 3,
        MsgType::HEARTBEAT => 4,
    }
}

impl MsgType {
    pub fn as_u8(&self) -> (r: u8)
        ensures
            r == type_code(*self),
    {
        match self {
            MsgType::UNSPECIFIED => 0,
            MsgType::REQUEST => 1,
            MsgType::RESPONSE => 2,
            MsgType::ANOUNCEMENT => 3,
            MsgType::HEARTBEAT => 4,
        }
    }
}

/// The fixed-size frame header.
#[derive(Clone, Copy, PartialEq, Eq, Structural, Debug)]
pub struct MsgHead {
    pub magic: u32,
    pub ver: u8,
    pub session_id: u24,
    pub ty: u8,
    pub len: u24,
    pub crc32: u32,
}

/// A header and the envelope it frames.
#[derive(Clone, Copy, PartialEq, Eq, Structural, Debug)]
pub struct Msg(pub MsgHead, pub MsgBody);

/// Big-endian bytes of a 32-bit value.
pub open spec fn be32(x: u32) -> Seq<u8> {
    seq![
        (x / 16777216) as u8,
        ((x / 65536) % 256) as u8,
        ((x / 256) % 256) as u8,
        (x % 256) as u8,
    ]
}

/// The 32-bit value of the first four bytes, big-endian.
pub open spec fn be32_value(s: Seq<u8>) -> u32 {
    (s[0] as nat * 16777216 + s[1] as nat * 65536 + s[2] as nat * 256 + s[3] as nat) as u32
}

/// The 16 bytes of an encoded header.
pub open spec fn head_bytes(h: MsgHead) -> Seq<u8> {
    be32(h.magic) + seq![h.ver] + h.session_id.bytes() + seq![h.ty] + h.len.bytes() + be32(
        h.crc32,
    )
}

/// The header fields read from the first 16 bytes of `s`.
pub open spec fn parse_head(s: Seq<u8>) -> MsgHead {
    MsgHead {
        magic: be32_value(s),
        ver: s[4],
        session_id: u24 { lo: s[5], mid: s[6], hi: s[7] },
        ty: s[8],
        len: u24 { lo: s[9], mid: s[10], hi: s[11] },
        crc32: be32_value(s.skip(12)),
    }
}

/// The validation error of the bytes `s` (at least five of them), if any:
/// the magic number is checked before the version.
pub open spec fn head_fault(s: Seq<u8>) -> Option<PacketError> {
    if s.take(4) != be32(MAGIC) {
        Some(PacketError::BadMagic { found: be32_value(s), expected: MAGIC })
    } else if s[4] != VERSION {
        Some(PacketError::BadVersion { version: s[4], compiled: VERSION })
    } else {
        None
    }
}

/// Result of decoding a header from the bytes `s`, and the bytes left.
pub open spec fn decode_head_step(s: Seq<u8>) -> (Result<MsgHead, PacketError>, Seq<u8>) {
    if s.len() < HEAD_LEN {
        (Err(PacketError::TooShort { remaining: s.len() as usize, required: HEAD_LEN }), s)
    } else {
        match head_fault(s) {
            Some(e) => (Err(e), s),
            None => (Ok(parse_head(s)), s.skip(HEAD_LEN as int)),
        }
    }
}

/// Result of one attempt to take a header off the front of `s`, and the bytes left.
pub open spec fn head_step(s: Seq<u8>) -> (Result<Option<MsgHead>, PacketError>, Seq<u8>) {
    if s.len() < HEAD_LEN {
        (Ok(None), s)
    } else if s[0] == 0 && s[1] == 0 && s[2] == 0 && s[3] == 0 {
        (Ok(None), s)
    } else {
        match decode_head_step(s) {
            (Ok(h), rest) => (Ok(Some(h)), rest),
            (Err(e), rest) => (Err(e), rest),
        }
    }
}

/// Result of one attempt to take the envelope that `h` announces off the
/// front of `s`, and the bytes left.
pub open spec fn body_step(h: MsgHead, s: Seq<u8>) -> (
    Result<Option<MsgBody>, PacketError>,
    Seq<u8>,
) {
    let n = h.len.value() as int;
    if s.len() < n {
        (Ok(None), s)
    } else if n > 0 && s[0] == 0 {
        (Ok(None), s)
    } else {
        match parse_body(s.take(n)) {
            None => (Err(PacketError::Decode), s),
            Some(m) => if m.body is None {
                (Err(PacketError::EmptyBody), s)
            } else if crc32_of(body_bytes(m)) == h.crc32 {
                (Ok(Some(m)), s.skip(n))
            } else {
                (
                    Err(PacketError::Integrity { computed: crc32_of(body_bytes(m)), declared: h.crc32 }),
                    s.skip(n),
                )
            },
        }
    }
}

/// The bytes of an encoded message: header, then envelope.
pub open spec fn msg_bytes(m: Msg) -> Seq<u8> {
    head_bytes(m.0) + body_bytes(m.1)
}

/// A message as `Msg::build` makes it: current magic and version, one
/// populated variant, and length and checksum taken from the envelope.
pub open spec fn msg_wf(m: Msg) -> bool {
    &&& m.0.magic == MAGIC
    &&& m.0.ver == VERSION
    &&& m.1.body is Some
    &&& m.0.len.value() == body_bytes(m.1).len()
    &&& m.0.crc32 == crc32_of(body_bytes(m.1))
}


proof fn lemma_be32(x: u32, rest: Seq<u8>)
    ensures
        be32_value(be32(x) + rest) == x,
        (be32(x) + rest).take(4) == be32(x),
{
    let s = be32(x) + rest;
    assert(s.take(4) =~= be32(x));
    assert(x == (x / 16777216) * 16777216 + ((x / 65536) % 256) * 65536 + ((x / 256) % 256) * 256
        + x % 256);
}

/// An encoded header reads back as itself, whatever follows it.
pub proof fn lemma_head_round_trip(h: MsgHead, rest: Seq<u8>)
    ensures
        head_bytes(h).len() == HEAD_LEN,
        parse_head(head_bytes(h) + rest) == h,
        (head_bytes(h) + rest).skip(HEAD_LEN as int) == rest,
        h.magic == MAGIC && h.ver == VERSION ==> head_fault(head_bytes(h) + rest) is None,
{
    let s = head_bytes(h) + rest;
    lemma_be32(h.magic, s.skip(4));
    assert(s =~= be32(h.magic) + s.skip(4));
    lemma_be32(h.crc32, rest);
    assert(s.skip(12) =~= be32(h.crc32) + rest);
    assert(s.skip(HEAD_LEN as int) =~= rest);
}

fn push_be32(out: &mut Vec<u8>, x: u32)
    ensures
        final(out)@ == old(out)@ + be32(x),
{
    let ghost start = out@;
    out.push((x / 16777216) as u8);
    out.push(((x / 65536) % 256) as u8);
    out.push(((x / 256) % 256) as u8);
    out.push((x % 256) as u8);
    assert(out@ =~= start + be32(x));
}

fn read_be32(s: &[u8], at: usize) -> (r: u32)
    requires
        at + 4 <= s@.len(),
    ensures
        r == be32_value(s@.skip(at as int)),
{
    (s[at] as u32) * 16777216 + (s[at + 1] as u32) * 65536 + (s[at + 2] as u32) * 256 + s[at
        + 3] as u32
}

fn head_from_bytes(s: &[u8]) -> (r: MsgHead)
    requires
        s@.len() >= HEAD_LEN,
    ensures
        r == parse_head(s@),
{
    assert(s@.skip(0) =~= s@);
    MsgHead {
        magic: read_be32(s, 0),
        ver: s[4],
        session_id: u24 { lo: s[5], mid: s[6], hi: s[7] },
        ty: s[8],
        len: u24 { lo: s[9], mid: s[10], hi: s[11] },
        crc32: read_be32(s, 12),
    }
}

/// The validation error of a buffered header, if any.
fn check_head(s: &[u8]) -> (r: Option<PacketError>)
    requires
        s@.len() >= HEAD_LEN,
    ensures
        r == head_fault(s@),
{
    assert(s@.skip(0) =~= s@);
    let found = read_be32(s, 0);
    if found != MAGIC {
        proof {
            lemma_be32(MAGIC, Seq::empty());
            assert(be32(MAGIC) + Seq::<u8>::empty() =~= be32(MAGIC));
        }
        return Some(PacketError::BadMagic { found, expected: MAGIC });
    }
    proof {
        lemma_be32(MAGIC, s@.skip(4));
        assert(s@ =~= s@.take(4) + s@.skip(4));
        assert(s@.take(4) =~= be32(MAGIC)) by {
            assert(s@[0] == 0x0d && s@[1] == 0 && s@[2] == 7 && s@[3] == 0x21);
        }
    }
    if s[4] != VERSION {
        return Some(PacketError::BadVersion { version: s[4], compiled: VERSION });
    }
    None
}

impl MsgHead {
    pub fn build(ty: u8, session_id: u24, len: u24, crc32: u32) -> (r: MsgHead)
        ensures
            r == (MsgHead { magic: MAGIC, ver: VERSION, session_id, ty, len, crc32 }),
    {
        MsgHead { magic: MAGIC, ver: VERSION, session_id, ty, len, crc32 }
    }

    /// Size of an encoded header.
    pub fn len() -> (r: usize)
        ensures
            r == HEAD_LEN,
    {
        HEAD_LEN
    }

    pub fn encode_to_vec(&self) -> (r: Vec<u8>)
        ensures
            r@ == head_bytes(*self),
    {
        let mut out: Vec<u8> = Vec::new();
        push_be32(&mut out, self.magic);
        out.push(self.ver);
        out.push(self.session_id.lo);
        out.push(self.session_id.mid);
        out.push(self.session_id.hi);
        out.push(self.ty);
        out.push(self.len.lo);
        out.push(self.len.mid);
        out.push(self.len.hi);
        push_be32(&mut out, self.crc32);
        assert(out@ =~= head_bytes(*self));
        out
    }

    /// Appends the 16 header bytes; writes nothing when there is no room.
    pub fn encode(&self, buf: &mut bytes::BytesMut) -> (r: Result<(), PacketError>)
        ensures
            isize::MAX - buffer_bytes(*old(buf)).len() >= HEAD_LEN <==> r is Ok,
            r is Ok ==> buffer_bytes(*final(buf)) == buffer_bytes(*old(buf)) + head_bytes(*self),
            r matches Err(e) ==> e == (PacketError::Capacity {
                remaining: (isize::MAX - buffer_bytes(*old(buf)).len()) as usize,
                required: HEAD_LEN,
            }) && buffer_bytes(*final(buf)) == buffer_bytes(*old(buf)),
    {
        let remaining = buffer_free(buf);
        if remaining < HEAD_LEN {
            return Err(PacketError::Capacity { remaining, required: HEAD_LEN });
        }
        let v = self.encode_to_vec();
        buffer_put(buf, v.as_slice());
        Ok(())
    }

    /// Takes a header off the front of `buf`. The magic number and the version
    /// are checked before anything is consumed; on any error nothing is.
    pub fn decode(buf: &mut bytes::BytesMut) -> (r: Result<MsgHead, PacketError>)
        ensures
            (r, buffer_bytes(*final(buf))) == decode_head_step(buffer_bytes(*old(buf))),
    {
        let remaining = buffer_len(buf);
        if remaining < HEAD_LEN {
            return Err(PacketError::TooShort { remaining, required: HEAD_LEN });
        }
        let peek = buffer_peek(buf, HEAD_LEN);
        let ghost s = buffer_bytes(*buf);
        proof {
            assert forall|i: int| 0 <= i < HEAD_LEN implies peek@[i] == s[i] by {}
            assert(peek@.take(4) =~= s.take(4));
            assert(peek@.skip(12).take(4) =~= s.skip(12).take(4));
        }
        match check_head(peek.as_slice()) {
            Some(e) => Err(e),
            None => {
                let h = head_from_bytes(peek.as_slice());
                buffer_advance(buf, HEAD_LEN);
                Ok(h)
            },
        }
    }
}


impl MsgBody {
    /// Appends the serialized envelope.
    pub fn encode(&self, buf: &mut bytes::BytesMut)
        ensures
            buffer_bytes(*final(buf)) == buffer_bytes(*old(buf)) + body_bytes(*self),
    {
        let v = self.encode_to_vec();
        buffer_put(buf, v.as_slice());
    }

    /// Decodes every buffered byte as one envelope and consumes them; on a
    /// malformed envelope nothing is consumed.
    pub fn decode(buf: &mut bytes::BytesMut) -> (r: Result<MsgBody, PacketError>)
        ensures
            match parse_body(buffer_bytes(*old(buf))) {
                Some(m) => r == Ok::<MsgBody, PacketError>(m) && buffer_bytes(*final(buf)).len()
                    == 0,
                None => r == Err::<MsgBody, PacketError>(PacketError::Decode) && buffer_bytes(
                    *final(buf),
                ) == buffer_bytes(*old(buf)),
            },
    {
        let n = buffer_len(buf);
        let all = buffer_peek(buf, n);
        proof {
            assert(all@ =~= buffer_bytes(*buf));
        }
        match MsgBody::decode_bytes(all.as_slice()) {
            Some(m) => {
                buffer_advance(buf, n);
                Ok(m)
            },
            None => Err(PacketError::Decode),
        }
    }
}

/// Accepts a decoded envelope when the checksum computed over its
/// re-serialization equals the declared one.
pub fn verify_checksum(computed: u32, declared: u32, m: MsgBody) -> (r: Result<MsgBody, PacketError>)
    ensures
        computed == declared ==> r == Ok::<MsgBody, PacketError>(m),
        computed != declared ==> r == Err::<MsgBody, PacketError>(
            PacketError::Integrity { computed, declared },
        ),
{
    if computed == declared {
        Ok(m)
    } else {
        Err(PacketError::Integrity { computed, declared })
    }
}

/// Takes one header off the front of `buf` if one is there.
///
/// `Ok(None)` means "read more": fewer than 16 bytes are buffered, or the
/// first four are all zero (a scratch buffer nothing was written to yet).
/// A wrong magic number or version is an error and consumes nothing; a
/// header is returned with exactly its 16 bytes consumed.
pub fn try_parse_head(buf: &mut bytes::BytesMut) -> (r: Result<Option<MsgHead>, PacketError>)
    ensures
        (r, buffer_bytes(*final(buf))) == head_step(buffer_bytes(*old(buf))),
{
    let n = buffer_len(buf);
    if n < HEAD_LEN {
        return Ok(None);
    }
    let peek = buffer_peek(buf, 4);
    if peek[0] == 0 && peek[1] == 0 && peek[2] == 0 && peek[3] == 0 {
        return Ok(None);
    }
    match MsgHead::decode(buf) {
        Ok(h) => Ok(Some(h)),
        Err(e) => Err(e),
    }
}

/// Takes the envelope that `head` announces off the front of `buf` if all of
/// it is there.
///
/// `Ok(None)` means "read more": fewer than `head.len` bytes are buffered, or
/// the first of them is zero. A malformed or empty envelope is an error and
/// consumes nothing. A decoded envelope consumes exactly `head.len` bytes; its
/// re-serialization is then checked against `head.crc32`.
pub fn try_parse_body(head: &MsgHead, buf: &mut bytes::BytesMut) -> (r: Result<
    Option<MsgBody>,
    PacketError,
>)
    ensures
        (r, buffer_bytes(*final(buf))) == body_step(*head, buffer_bytes(*old(buf))),
{
    let len = head.len.as_usize();
    let n = buffer_len(buf);
    if n < len {
        return Ok(None);
    }
    let peek = buffer_peek(buf, len);
    if len > 0 && peek[0] == 0 {
        return Ok(None);
    }
    match MsgBody::decode_bytes(peek.as_slice()) {
        None => Err(PacketError::Decode),
        Some(m) => {
            match m.body {
                None => Err(PacketError::EmptyBody),
                Some(_) => {
                    buffer_advance(buf, len);
                    let again = m.encode_to_vec();
                    let computed = crc32(again.as_slice());
                    match verify_checksum(computed, head.crc32, m) {
                        Ok(m) => Ok(Some(m)),
                        Err(e) => Err(e),
                    }
                },
            }
        },
    }
}


/// Relies on `SystemTime::now` and `duration_since(UNIX_EPOCH)`: the time
/// since the epoch as whole seconds and nanoseconds (below one second), or
/// `None` when the clock reads earlier than the epoch.
#[verifier::external_body]
fn unix_time_now() -> (r: Option<(u64, u32)>)
    ensures
        r matches Some((_, n)) ==> n < 1_000_000_000,
{
    std::time::SystemTime::now().duration_since(std::time::UNIX_EPOCH).ok().map(
        |d| (d.as_secs(), d.subsec_nanos()),
    )
}

impl Msg {
    /// Wraps `body` in an envelope and frames it: the header's length and
    /// checksum are taken from the serialized envelope.
    pub fn build(ty: MsgType, session_id: u24, body: Body) -> (r: Result<Msg, PacketError>)
        ensures
            body_bytes(MsgBody { body: Some(body) }).len() <= U24_MAX <==> r is Ok,
            r matches Ok(m) ==> msg_wf(m) && m.1 == (MsgBody { body: Some(body) })
                && m.0.session_id == session_id && m.0.ty == type_code(ty),
            r matches Err(e) ==> e == (PacketError::PayloadTooLarge {
                len: body_bytes(MsgBody { body: Some(body) }).len() as usize,
            }),
    {
        let msg_body = MsgBody { body: Some(body) };
        let bytes = msg_body.encode_to_vec();
        let len = bytes.len();
        if len > U24_MAX as usize {
            return Err(PacketError::PayloadTooLarge { len });
        }
        let len24 = match u24::try_from_usize(len) {
            Ok(x) => x,
            Err(e) => {
                return Err(e);
            },
        };
        let sum = crc32(bytes.as_slice());
        Ok(Msg(MsgHead::build(ty.as_u8(), session_id, len24, sum), msg_body))
    }

    /// Appends header and envelope; writes nothing when there is no room for
    /// both.
    pub fn encode(&self, buf: &mut bytes::BytesMut) -> (r: Result<(), PacketError>)
        ensures
            isize::MAX - buffer_bytes(*old(buf)).len() >= HEAD_LEN + self.0.len.value() <==> r is Ok,
            r is Ok ==> buffer_bytes(*final(buf)) == buffer_bytes(*old(buf)) + msg_bytes(*self),
            r matches Err(e) ==> e == (PacketError::Capacity {
                remaining: (isize::MAX - buffer_bytes(*old(buf)).len()) as usize,
                required: (HEAD_LEN + self.0.len.value()) as usize,
            }) && buffer_bytes(*final(buf)) == buffer_bytes(*old(buf)),
    {
        let required = HEAD_LEN + self.0.len.as_usize();
        let remaining = buffer_free(buf);
        if remaining < required {
            return Err(PacketError::Capacity { remaining, required });
        }
        let ghost start = buffer_bytes(*buf);
        let _ = self.0.encode(buf);
        self.1.encode(buf);
        assert(buffer_bytes(*buf) =~= start + msg_bytes(*self));
        Ok(())
    }

    /// Header and envelope bytes, back to back.
    pub fn encode_to_vec(&self) -> (r: Vec<u8>)
        ensures
            r@ == msg_bytes(*self),
    {
        let mut out = self.0.encode_to_vec();
        let mut b = self.1.encode_to_vec();
        out.append(&mut b);
        out
    }
}

/// The timestamp for a reading of the clock: seconds and nanoseconds since
/// the epoch, or the epoch itself when the clock reads earlier.
pub fn timestamp_of(now: Option<(u64, u32)>) -> (r: Timestamp)
    ensures
        match now {
            Some((s, n)) => r == if s <= i64::MAX && n <= i32::MAX {
                Timestamp { seconds: s as i64, nanos: n as i32 }
            } else {
                Timestamp { seconds: i64::MAX, nanos: 0 }
            },
            None => r == (Timestamp { seconds: 0, nanos: 0 }),
        },
{
    match now {
        Some((s, n)) => if s <= i64::MAX as u64 && n <= i32::MAX as u32 {
            Timestamp { seconds: s as i64, nanos: n as i32 }
        } else {
            Timestamp { seconds: i64::MAX, nanos: 0 }
        },
        None => Timestamp { seconds: 0, nanos: 0 },
    }
}

/// A heartbeat message stamped with `ts`.
pub fn build_heartbeat_msg_at(session_id: u24, ts: Timestamp) -> (r: Msg)
    ensures
        msg_wf(r),
        r.1 == (MsgBody { body: Some(Body::Heartbeat(Heartbeat { ts: Some(ts) })) }),
        r.0.session_id == session_id,
        r.0.ty == type_code(MsgType::HEARTBEAT),
{
    let body = Body::Heartbeat(Heartbeat { ts: Some(ts) });
    proof {
        lemma_varint_len(bits_of_i64(ts.seconds));
        lemma_varint_len(bits_of_i64(ts.nanos as i64));
        lemma_varint_len(timestamp_bytes(ts).len());
        lemma_varint_len(heartbeat_bytes(Heartbeat { ts: Some(ts) }).len());
    }
    match Msg::build(MsgType::HEARTBEAT, session_id, body) {
        Ok(m) => m,
        Err(_) => {
            proof {
                assert(false);
            }
            Msg(MsgHead::build(0, session_id, u24::from_u8(0), 0), MsgBody { body: None })
        },
    }
}

/// A heartbeat message stamped with the current time.
pub fn build_heartbeat_msg(session_id: u24) -> (r: Msg)
    ensures
        msg_wf(r),
        r.1.body matches Some(Body::Heartbeat(h)) && h.ts is Some,
        r.0.session_id == session_id,
        r.0.ty == type_code(MsgType::HEARTBEAT),
{
    build_heartbeat_msg_at(session_id, timestamp_of(unix_time_now()))
}

/// Round trip: a built message, encoded and followed by any bytes, yields its
/// header and then its envelope, each consuming exactly its own bytes.
pub proof fn lemma_msg_round_trip(m: Msg, rest: Seq<u8>)
    requires
        msg_wf(m),
    ensures
        head_step(msg_bytes(m) + rest) == (
            Ok::<Option<MsgHead>, PacketError>(Some(m.0)),
            body_bytes(m.1) + rest,
        ),
        body_step(m.0, body_bytes(m.1) + rest) == (
            Ok::<Option<MsgBody>, PacketError>(Some(m.1)),
            rest,
        ),
{
    let b = body_bytes(m.1) + rest;
    let s = msg_bytes(m) + rest;
    assert(s =~= head_bytes(m.0) + b);
    lemma_head_round_trip(m.0, b);
    lemma_be32(MAGIC, s.skip(4));
    assert(s =~= be32(MAGIC) + s.skip(4));
    assert(s[0] == 0x0d);
    lemma_body_round_trip(m.1);
    let n = m.0.len.value() as int;
    assert(b.take(n) =~= body_bytes(m.1));
    assert(b.skip(n) =~= rest);
    assert(b[0] == body_bytes(m.1)[0]);
}

/// Pipelining: two messages encoded back to back come out in order through
/// four extraction steps, which leave nothing behind.
pub proof fn lemma_pipelining(m1: Msg, m2: Msg)
    requires
        msg_wf(m1),
        msg_wf(m2),
    ensures
        head_step(msg_bytes(m1) + msg_bytes(m2)) == (
            Ok::<Option<MsgHead>, PacketError>(Some(m1.0)),
            body_bytes(m1.1) + msg_bytes(m2),
        ),
        body_step(m1.0, body_bytes(m1.1) + msg_bytes(m2)) == (
            Ok::<Option<MsgBody>, PacketError>(Some(m1.1)),
            msg_bytes(m2),
        ),
        head_step(msg_bytes(m2)) == (
            Ok::<Option<MsgHead>, PacketError>(Some(m2.0)),
            body_bytes(m2.1),
        ),
        body_step(m2.0, body_bytes(m2.1)) == (
            Ok::<Option<MsgBody>, PacketError>(Some(m2.1)),
            Seq::<u8>::empty(),
        ),
{
    lemma_msg_round_trip(m1, msg_bytes(m2));
    lemma_msg_round_trip(m2, Seq::empty());
    assert(msg_bytes(m2) + Seq::<u8>::empty() =~= msg_bytes(m2));
    assert(body_bytes(m2.1) + Seq::<u8>::empty() =~= body_bytes(m2.1));
}

/// Fewer than 16 buffered bytes are never an error: the answer is "read more"
/// and nothing is consumed.
pub proof fn lemma_short_buffer_not_ready(s: Seq<u8>)
    requires
        s.len() < HEAD_LEN,
    ensures
        head_step(s) == (Ok::<Option<MsgHead>, PacketError>(None), s),
{
}

/// An all-zero buffer of any length is "read more", not a validation error.
pub proof fn lemma_zero_buffer_not_ready(s: Seq<u8>)
    requires
        forall|i: int| 0 <= i < s.len() ==> s[i] == 0,
    ensures
        head_step(s) == (Ok::<Option<MsgHead>, PacketError>(None), s),
{
    if s.len() >= HEAD_LEN {
        assert(s[0] == 0 && s[1] == 0 && s[2] == 0 && s[3] == 0);
    }
}

/// Header validation on 16 or more bytes whose first four are not all zero:
/// the right magic number and version give the header; a wrong magic number
/// is an error naming both magic numbers; the right magic number with a
/// wrong version is an error naming both versions. Nothing is consumed on
/// an error.
pub proof fn lemma_head_validation(s: Seq<u8>)
    requires
        s.len() >= HEAD_LEN,
        !(s[0] == 0 && s[1] == 0 && s[2] == 0 && s[3] == 0),
    ensures
        s.take(4) == be32(MAGIC) && s[4] == VERSION ==> head_step(s) == (
            Ok::<Option<MsgHead>, PacketError>(Some(parse_head(s))),
            s.skip(HEAD_LEN as int),
        ),
        s.take(4) != be32(MAGIC) ==> head_step(s) == (
            Err::<Option<MsgHead>, PacketError>(
                PacketError::BadMagic { found: be32_value(s), expected: MAGIC },
            ),
            s,
        ),
        s.take(4) == be32(MAGIC) && s[4] != VERSION ==> head_step(s) == (
            Err::<Option<MsgHead>, PacketError>(
                PacketError::BadVersion { version: s[4], compiled: VERSION },
            ),
            s,
        ),
{
}

/// Flipping any one bit of the magic number of an encoded header makes
/// header extraction fail with a magic-number error, consuming nothing.
pub proof fn lemma_magic_bit_flip(h: MsgHead, rest: Seq<u8>, i: int, bit: u8)
    requires
        h.magic == MAGIC,
        0 <= i < 4,
        bit < 8,
    ensures
        ({
            let s = head_bytes(h) + rest;
            let t = s.update(i, s[i] ^ (1u8 << bit));
            head_step(t) == (
                Err::<Option<MsgHead>, PacketError>(
                    PacketError::BadMagic { found: be32_value(t), expected: MAGIC },
                ),
                t,
            )
        }),
{
    let s = head_bytes(h) + rest;
    let x = s[i];
    let y = x ^ (1u8 << bit);
    let t = s.update(i, y);
    lemma_be32(MAGIC, s.skip(4));
    assert(s =~= be32(MAGIC) + s.skip(4));
    assert(y != x) by (bit_vector)
        requires
            y == x ^ (1u8 << bit),
            bit < 8,
    ;
    assert(t.take(4)[i] != be32(MAGIC)[i]);
    assert(s[0] == 0x0d && s[2] == 7);
    if i == 0 {
        assert(t[2] == 7);
    } else {
        assert(t[0] == 0x0d);
    }
}

} // verus!

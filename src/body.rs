use vstd::prelude::*;

verus! {

/// Most bytes one varint may take.
pub const VARINT_MAX_LEN: usize = 10;

/// Key byte of field 1 with wire type "varint".
pub const KEY_FIELD1_VARINT: u8 = 0x08;

/// Key byte of field 2 with wire type "varint".
pub const KEY_FIELD2_VARINT: u8 = 0x10;

/// Key byte of field 1 with wire type "length-delimited".
pub const KEY_FIELD1_DELIMITED: u8 = 0x0A;

/// A point in time: whole seconds and nanoseconds since the Unix epoch.
#[derive(Clone, Copy, PartialEq, Eq, Structural, Debug)]
pub struct Timestamp {
    pub seconds: i64,
    pub nanos: i32,
}

/// The keep-alive message: when it was sent.
#[derive(Clone, Copy, PartialEq, Eq, Structural, Debug)]
pub struct Heartbeat {
    pub ts: Option<Timestamp>,
}

/// The closed set of application message kinds.
#[derive(Clone, Copy, PartialEq, Eq, Structural, Debug)]
pub enum Body {
    Heartbeat(Heartbeat),
}

/// The envelope: at most one populated variant; a valid one has exactly one.
#[derive(Clone, Copy, PartialEq, Eq, Structural, Debug)]
pub struct MsgBody {
    pub body: Option<Body>,
}

/// Base-128 little-endian encoding, high bit set on every byte but the last.
pub open spec fn varint(v: nat) -> Seq<u8>
    decreases v,
{
    if v < 128 {
        seq![v as u8]
    } else {
        seq![(v % 128 + 128) as u8] + varint(v / 128)
    }
}

/// Reads a varint of at most `fuel` bytes from the front of `s`, whose value
/// fits in 64 bits: the value and the number of bytes it took.
pub open spec fn parse_varint(s: Seq<u8>, fuel: nat) -> Option<(nat, nat)>
    decreases fuel,
{
    if fuel == 0 || s.len() == 0 {
        None
    } else if s[0] < 128 {
        Some((s[0] as nat, 1nat))
    } else {
        match parse_varint(s.drop_first(), (fuel - 1) as nat) {
            None => None,
            Some((v, n)) => {
                let w = (s[0] - 128) + 128 * v;
                if w <= u64::MAX {
                    Some((w as nat, n + 1))
                } else {
                    None
                }
            },
        }
    }
}

/// Two's-complement bits of a signed 64-bit value.
pub open spec fn bits_of_i64(x: i64) -> nat {
    if x >= 0 {
        x as nat
    } else {
        (x + 0x1_0000_0000_0000_0000) as nat
    }
}

/// The signed 64-bit value of two's-complement bits.
pub open spec fn i64_of_bits(v: nat) -> int {
    if v < 0x8000_0000_0000_0000 {
        v as int
    } else {
        v - 0x1_0000_0000_0000_0000
    }
}

/// A varint field with the given key, omitted when zero.
pub open spec fn varint_field(key: u8, v: nat) -> Seq<u8> {
    if v == 0 {
        Seq::empty()
    } else {
        seq![key] + varint(v)
    }
}

/// A length-delimited field with key byte `key`.
pub open spec fn delimited_field(key: u8, content: Seq<u8>) -> Seq<u8> {
    seq![key] + varint(content.len()) + content
}

pub open spec fn timestamp_bytes(t: Timestamp) -> Seq<u8> {
    varint_field(KEY_FIELD1_VARINT, bits_of_i64(t.seconds)) + varint_field(
        KEY_FIELD2_VARINT,
        bits_of_i64(t.nanos as i64),
    )
}

pub open spec fn heartbeat_bytes(h: Heartbeat) -> Seq<u8> {
    match h.ts {
        None => Seq::empty(),
        Some(t) => delimited_field(KEY_FIELD1_DELIMITED, timestamp_bytes(t)),
    }
}

/// The serialized envelope.
pub open spec fn body_bytes(m: MsgBody) -> Seq<u8> {
    match m.body {
        None => Seq::empty(),
        Some(Body::Heartbeat(h)) => delimited_field(KEY_FIELD1_DELIMITED, heartbeat_bytes(h)),
    }
}

/// An optional varint field with key `key` at the front of `s`: its value
/// (zero when absent) and what follows it.
pub open spec fn parse_opt_varint_field(s: Seq<u8>, key: u8) -> Option<(nat, Seq<u8>)> {
    if s.len() > 0 && s[0] == key {
        match parse_varint(s.drop_first(), VARINT_MAX_LEN as nat) {
            None => None,
            Some((v, n)) => Some((v, s.skip(1 + n as int))),
        }
    } else {
        Some((0nat, s))
    }
}

/// A length-delimited field with key `key` that makes up all of `s`: its content.
pub open spec fn parse_whole_delimited(s: Seq<u8>, key: u8) -> Option<Seq<u8>> {
    if s.len() > 0 && s[0] == key {
        match parse_varint(s.drop_first(), VARINT_MAX_LEN as nat) {
            None => None,
            Some((l, n)) => if 1 + n + l == s.len() {
                Some(s.skip(1 + n as int))
            } else {
                None
            },
        }
    } else {
        None
    }
}

pub open spec fn parse_timestamp(s: Seq<u8>) -> Option<Timestamp> {
    match parse_opt_varint_field(s, KEY_FIELD1_VARINT) {
        None => None,
        Some((a, r1)) => match parse_opt_varint_field(r1, KEY_FIELD2_VARINT) {
            None => None,
            Some((b, r2)) => if r2.len() == 0 && i32::MIN <= i64_of_bits(b) <= i32::MAX {
                Some(Timestamp { seconds: i64_of_bits(a) as i64, nanos: i64_of_bits(b) as i32 })
            } else {
                None
            },
        },
    }
}

pub open spec fn parse_heartbeat(s: Seq<u8>) -> Option<Heartbeat> {
    if s.len() == 0 {
        Some(Heartbeat { ts: None })
    } else {
        match parse_whole_delimited(s, KEY_FIELD1_DELIMITED) {
            None => None,
            Some(c) => match parse_timestamp(c) {
                None => None,
                Some(t) => Some(Heartbeat { ts: Some(t) }),
            },
        }
    }
}

/// What the envelope bytes `s` decode to, if they are well formed.
pub open spec fn parse_body(s: Seq<u8>) -> Option<MsgBody> {
    if s.len() == 0 {
        Some(MsgBody { body: None })
    } else {
        match parse_whole_delimited(s, KEY_FIELD1_DELIMITED) {
            None => None,
            Some(c) => match parse_heartbeat(c) {
                None => None,
                Some(h) => Some(MsgBody { body: Some(Body::Heartbeat(h)) }),
            },
        }
    }
}


/// 128 to the power `k`.
spec fn pow128(k: nat) -> nat
    decreases k,
{
    if k == 0 {
        1
    } else {
        128 * pow128((k - 1) as nat)
    }
}

proof fn lemma_varint_len_bound(v: nat, k: nat)
    requires
        v < pow128(k),
        k >= 1,
    ensures
        1 <= varint(v).len() <= k,
    decreases v,
{
    if v >= 128 {
        assert(k >= 2) by {
            if k == 0 {
            } else if k == 1 {
                assert(pow128(0) == 1);
            }
        }
        let k1 = (k - 1) as nat;
        assert(v / 128 < pow128(k1)) by (nonlinear_arith)
            requires
                v < 128 * pow128(k1),
        ;
        lemma_varint_len_bound(v / 128, k1);
    }
}

/// A 64-bit value takes at most ten varint bytes.
pub proof fn lemma_varint_len(v: nat)
    requires
        v <= u64::MAX,
    ensures
        1 <= varint(v).len() <= VARINT_MAX_LEN,
{
    reveal_with_fuel(pow128, 11);
    assert(pow128(10) == 1180591620717411303424nat);
    lemma_varint_len_bound(v, 10);
}

/// Reading back an encoded varint gives its value and length, whatever follows.
pub proof fn lemma_varint_round_trip(v: nat, rest: Seq<u8>, fuel: nat)
    requires
        v <= u64::MAX,
        varint(v).len() <= fuel,
    ensures
        parse_varint(varint(v) + rest, fuel) == Some((v, varint(v).len())),
    decreases v,
{
    let s = varint(v) + rest;
    if v < 128 {
        assert(s[0] == v as u8);
    } else {
        let head = (v % 128 + 128) as u8;
        assert(s[0] == head);
        assert(s.drop_first() =~= varint(v / 128) + rest);
        lemma_varint_round_trip(v / 128, rest, (fuel - 1) as nat);
        assert(v == v % 128 + 128 * (v / 128)) by (nonlinear_arith);
    }
}

proof fn lemma_opt_varint_field(key: u8, v: nat, rest: Seq<u8>)
    requires
        v <= u64::MAX,
        v == 0 ==> rest.len() == 0 || rest[0] != key,
    ensures
        parse_opt_varint_field(varint_field(key, v) + rest, key) == Some((v, rest)),
{
    let s = varint_field(key, v) + rest;
    if v != 0 {
        lemma_varint_len(v);
        assert(s.drop_first() =~= varint(v) + rest);
        lemma_varint_round_trip(v, rest, VARINT_MAX_LEN as nat);
        assert(s.skip(1 + varint(v).len() as int) =~= rest);
    } else {
        assert(s =~= rest);
    }
}

proof fn lemma_whole_delimited(key: u8, c: Seq<u8>)
    requires
        c.len() <= u64::MAX,
    ensures
        parse_whole_delimited(delimited_field(key, c), key) == Some(c),
{
    let s = delimited_field(key, c);
    lemma_varint_len(c.len());
    assert(s.drop_first() =~= varint(c.len()) + c);
    lemma_varint_round_trip(c.len(), c, VARINT_MAX_LEN as nat);
    assert(s.skip(1 + varint(c.len()).len() as int) =~= c);
}

proof fn lemma_timestamp_round_trip(t: Timestamp)
    ensures
        parse_timestamp(timestamp_bytes(t)) == Some(t),
{
    let a = bits_of_i64(t.seconds);
    let b = bits_of_i64(t.nanos as i64);
    let f2 = varint_field(KEY_FIELD2_VARINT, b);
    if b != 0 {
        assert(f2[0] == KEY_FIELD2_VARINT);
    }
    lemma_opt_varint_field(KEY_FIELD1_VARINT, a, f2);
    lemma_opt_varint_field(KEY_FIELD2_VARINT, b, Seq::empty());
    assert(f2 + Seq::empty() =~= f2);
}

/// Every envelope whose serialization fits in a 64-bit length decodes back to itself.
pub proof fn lemma_body_round_trip(m: MsgBody)
    ensures
        parse_body(body_bytes(m)) == Some(m),
        body_bytes(m).len() > 0 <==> m.body is Some,
        body_bytes(m).len() > 0 ==> body_bytes(m)[0] != 0,
{
    match m.body {
        None => {},
        Some(Body::Heartbeat(h)) => {
            match h.ts {
                None => {},
                Some(t) => {
                    lemma_timestamp_round_trip(t);
                    lemma_varint_len(bits_of_i64(t.seconds));
                    lemma_varint_len(bits_of_i64(t.nanos as i64));
                    lemma_whole_delimited(KEY_FIELD1_DELIMITED, timestamp_bytes(t));
                },
            }
            let hb = heartbeat_bytes(h);
            assert(hb.len() <= 64);
            lemma_whole_delimited(KEY_FIELD1_DELIMITED, hb);
        },
    }
}


/// Two's-complement bits of `x`.
fn i64_bits(x: i64) -> (r: u64)
    ensures
        r as nat == bits_of_i64(x),
{
    if x >= 0 {
        x as u64
    } else {
        (x as i128 + 0x1_0000_0000_0000_0000i128) as u64
    }
}

/// The signed value of the bits `v`.
fn i64_from_bits(v: u64) -> (r: i64)
    ensures
        r as int == i64_of_bits(v as nat),
{
    if v < 0x8000_0000_0000_0000u64 {
        v as i64
    } else {
        (v as i128 - 0x1_0000_0000_0000_0000i128) as i64
    }
}

/// Appends the varint encoding of `v`.
pub fn put_varint(out: &mut Vec<u8>, v: u64)
    ensures
        final(out)@ == old(out)@ + varint(v as nat),
{
    let ghost start = out@;
    let mut x: u64 = v;
    while x >= 128
        invariant
            out@ + varint(x as nat) == start + varint(v as nat),
        decreases x,
    {
        let ghost before = out@;
        out.push((x % 128 + 128) as u8);
        assert(varint(x as nat) == seq![(x % 128 + 128) as u8] + varint((x / 128) as nat));
        assert(out@ + varint((x / 128) as nat) =~= before + varint(x as nat));
        x = x / 128;
    }
    let ghost before = out@;
    out.push(x as u8);
    assert(out@ =~= before + varint(x as nat));
}

fn put_varint_field(out: &mut Vec<u8>, key: u8, v: u64)
    ensures
        final(out)@ == old(out)@ + varint_field(key, v as nat),
{
    if v != 0 {
        let ghost start = out@;
        out.push(key);
        put_varint(out, v);
        assert(out@ =~= start + varint_field(key, v as nat));
    } else {
        assert(out@ =~= out@ + varint_field(key, v as nat));
    }
}

fn put_delimited(out: &mut Vec<u8>, key: u8, content: &mut Vec<u8>)
    ensures
        final(out)@ == old(out)@ + delimited_field(key, old(content)@),
{
    let ghost start = out@;
    let ghost c = content@;
    out.push(key);
    put_varint(out, content.len() as u64);
    out.append(content);
    assert(out@ =~= start + delimited_field(key, c));
}

/// Reads a varint of at most `fuel` bytes starting at `pos`.
fn read_varint(b: &[u8], pos: usize, fuel: usize) -> (r: Option<(u64, usize)>)
    requires
        pos <= b@.len(),
    ensures
        r is None <==> parse_varint(b@.skip(pos as int), fuel as nat) is None,
        r matches Some((v, n)) ==> parse_varint(b@.skip(pos as int), fuel as nat) == Some(
            (v as nat, n as nat),
        ) && 1 <= n <= fuel && pos + n <= b@.len(),
    decreases fuel,
{
    if fuel == 0 || pos >= b.len() {
        return None;
    }
    let c = b[pos];
    assert(b@.skip(pos as int)[0] == c);
    if c < 128 {
        return Some((c as u64, 1));
    }
    assert(b@.skip(pos as int).drop_first() =~= b@.skip(pos as int + 1));
    match read_varint(b, pos + 1, fuel - 1) {
        None => None,
        Some((v, n)) => {
            let w: u128 = (c - 128) as u128 + 128 * (v as u128);
            if w <= u64::MAX as u128 {
                Some((w as u64, n + 1))
            } else {
                None
            }
        },
    }
}

/// An optional varint field with key `key` at the front of `s`: its value and
/// how many bytes it took.
fn read_opt_varint_field(s: &[u8], key: u8) -> (r: Option<(u64, usize)>)
    ensures
        r is None <==> parse_opt_varint_field(s@, key) is None,
        r matches Some((v, n)) ==> n <= s@.len() && parse_opt_varint_field(s@, key) == Some(
            (v as nat, s@.skip(n as int)),
        ),
{
    if s.len() > 0 && s[0] == key {
        assert(s@.drop_first() =~= s@.skip(1));
        match read_varint(s, 1, VARINT_MAX_LEN) {
            None => None,
            Some((v, n)) => Some((v, 1 + n)),
        }
    } else {
        assert(s@.skip(0) =~= s@);
        Some((0, 0))
    }
}

/// Where the content starts, when `s` is exactly one length-delimited field
/// with key `key`.
fn read_whole_delimited(s: &[u8], key: u8) -> (r: Option<usize>)
    ensures
        r is None <==> parse_whole_delimited(s@, key) is None,
        r matches Some(off) ==> off <= s@.len() && parse_whole_delimited(s@, key) == Some(
            s@.skip(off as int),
        ),
{
    if s.len() > 0 && s[0] == key {
        assert(s@.drop_first() =~= s@.skip(1));
        match read_varint(s, 1, VARINT_MAX_LEN) {
            None => None,
            Some((l, n)) => {
                if (l as u128) + (n as u128) + 1 == s.len() as u128 {
                    Some(1 + n)
                } else {
                    None
                }
            },
        }
    } else {
        None
    }
}

fn decode_timestamp(s: &[u8]) -> (r: Option<Timestamp>)
    ensures
        r == parse_timestamp(s@),
{
    match read_opt_varint_field(s, KEY_FIELD1_VARINT) {
        None => None,
        Some((a, n1)) => {
            let r1 = &s[n1..s.len()];
            assert(r1@ =~= s@.skip(n1 as int));
            match read_opt_varint_field(r1, KEY_FIELD2_VARINT) {
                None => None,
                Some((b, n2)) => {
                    let nanos = i64_from_bits(b);
                    if n2 == r1.len() && i32::MIN as i64 <= nanos && nanos <= i32::MAX as i64 {
                        Some(Timestamp { seconds: i64_from_bits(a), nanos: nanos as i32 })
                    } else {
                        None
                    }
                },
            }
        },
    }
}

fn decode_heartbeat(s: &[u8]) -> (r: Option<Heartbeat>)
    ensures
        r == parse_heartbeat(s@),
{
    if s.len() == 0 {
        return Some(Heartbeat { ts: None });
    }
    match read_whole_delimited(s, KEY_FIELD1_DELIMITED) {
        None => None,
        Some(off) => {
            let c = &s[off..s.len()];
            assert(c@ =~= s@.skip(off as int));
            match decode_timestamp(c) {
                None => None,
                Some(t) => Some(Heartbeat { ts: Some(t) }),
            }
        },
    }
}

impl Timestamp {
    /// The serialized timestamp.
    pub fn encode_to_vec(&self) -> (r: Vec<u8>)
        ensures
            r@ == timestamp_bytes(*self),
    {
        let mut out: Vec<u8> = Vec::new();
        put_varint_field(&mut out, KEY_FIELD1_VARINT, i64_bits(self.seconds));
        put_varint_field(&mut out, KEY_FIELD2_VARINT, i64_bits(self.nanos as i64));
        assert(out@ =~= timestamp_bytes(*self));
        out
    }
}

impl Heartbeat {
    /// The serialized heartbeat.
    pub fn encode_to_vec(&self) -> (r: Vec<u8>)
        ensures
            r@ == heartbeat_bytes(*self),
    {
        let mut out: Vec<u8> = Vec::new();
        match self.ts {
            None => {},
            Some(t) => {
                let mut c = t.encode_to_vec();
                put_delimited(&mut out, KEY_FIELD1_DELIMITED, &mut c);
                assert(out@ =~= heartbeat_bytes(*self));
            },
        }
        out
    }
}

impl MsgBody {
    /// The serialized envelope.
    pub fn encode_to_vec(&self) -> (r: Vec<u8>)
        ensures
            r@ == body_bytes(*self),
    {
        let mut out: Vec<u8> = Vec::new();
        match self.body {
            None => {},
            Some(Body::Heartbeat(h)) => {
                let mut c = h.encode_to_vec();
                put_delimited(&mut out, KEY_FIELD1_DELIMITED, &mut c);
                assert(out@ =~= body_bytes(*self));
            },
        }
        out
    }

    /// Length of the serialized envelope.
    pub fn encoded_len(&self) -> (r: usize)
        ensures
            r == body_bytes(*self).len(),
    {
        self.encode_to_vec().len()
    }

    /// Decodes envelope bytes; an empty populated variant is not checked here.
    pub fn decode_bytes(s: &[u8]) -> (r: Option<MsgBody>)
        ensures
            r == parse_body(s@),
    {
        if s.len() == 0 {
            return Some(MsgBody { body: None });
        }
        match read_whole_delimited(s, KEY_FIELD1_DELIMITED) {
            None => None,
            Some(off) => {
                let c = &s[off..s.len()];
                assert(c@ =~= s@.skip(off as int));
                match decode_heartbeat(c) {
                    None => None,
                    Some(h) => Some(MsgBody { body: Some(Body::Heartbeat(h)) }),
                }
            },
        }
    }
}

} // verus!

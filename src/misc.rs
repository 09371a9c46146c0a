use vstd::prelude::*;

use crate::error::PacketError;

verus! {

/// Largest value a [`u24`] can hold.
pub const U24_MAX: u32 = 16777215;

/// An unsigned integer below 2^24, stored as three little-endian bytes.
#[derive(Clone, Copy, PartialEq, Eq, Structural, Debug)]
#[allow(non_camel_case_types)]
pub struct u24 {
    pub lo: u8,
    pub mid: u8,
    pub hi: u8,
}

/// The value of three little-endian bytes.
pub open spec fn le24(b0: u8, b1: u8, b2: u8) -> nat {
    b0 as nat + 256 * (b1 as nat) + 65536 * (b2 as nat)
}

impl u24 {
    /// The integer this value stands for.
    pub open spec fn value(self) -> nat {
        le24(self.lo, self.mid, self.hi)
    }

    /// The three bytes, least significant first.
    pub open spec fn bytes(self) -> Seq<u8> {
        seq![self.lo, self.mid, self.hi]
    }

    pub fn as_u32(&self) -> (r: u32)
        ensures
            r as nat == self.value(),
            r <= U24_MAX,
    {
        (self.hi as u32) * 65536 + (self.mid as u32) * 256 + self.lo as u32
    }

    pub fn as_usize(&self) -> (r: usize)
        ensures
            r as nat == self.value(),
    {
        self.as_u32() as usize
    }

    pub fn to_bytes(&self) -> (r: [u8; 3])
        ensures
            r@ == self.bytes(),
            le24(r[0], r[1], r[2]) == self.value(),
    {
        let r = [self.lo, self.mid, self.hi];
        assert(r@ =~= self.bytes());
        r
    }

    pub fn max() -> (r: u32)
        ensures
            r == U24_MAX,
    {
        U24_MAX
    }

    /// Zero-extends a byte.
    pub fn from_u8(v: u8) -> (r: u24)
        ensures
            r.value() == v as nat,
    {
        u24 { lo: v, mid: 0, hi: 0 }
    }

    /// Zero-extends a 16-bit value.
    pub fn from_u16(v: u16) -> (r: u24)
        ensures
            r.value() == v as nat,
    {
        u24 { lo: (v % 256) as u8, mid: (v / 256) as u8, hi: 0 }
    }

    /// Succeeds exactly when the value is below 2^24.
    pub fn try_from_u32(v: u32) -> (r: Result<u24, PacketError>)
        ensures
            (v as nat) < 16777216 <==> r is Ok,
            r matches Ok(x) ==> x.value() == v as nat,
            r matches Err(e) ==> e == (PacketError::Overflow { value: v as u64, max: U24_MAX }),
    {
        if v <= U24_MAX {
            Ok(u24 { lo: (v % 256) as u8, mid: ((v / 256) % 256) as u8, hi: (v / 65536) as u8 })
        } else {
            Err(PacketError::Overflow { value: v as u64, max: U24_MAX })
        }
    }

    /// Succeeds exactly when the value is below 2^24.
    pub fn try_from_usize(v: usize) -> (r: Result<u24, PacketError>)
        ensures
            (v as nat) < 16777216 <==> r is Ok,
            r matches Ok(x) ==> x.value() == v as nat,
            r matches Err(e) ==> e == (PacketError::Overflow { value: v as u64, max: U24_MAX }),
    {
        if v <= U24_MAX as usize {
            u24::try_from_u32(v as u32)
        } else {
            Err(PacketError::Overflow { value: v as u64, max: U24_MAX })
        }
    }

    /// Succeeds exactly when given three bytes.
    pub fn try_from_bytes(b: &[u8]) -> (r: Result<u24, PacketError>)
        ensures
            b@.len() == 3 <==> r is Ok,
            r matches Ok(x) ==> x.bytes() == b@,
            r matches Err(e) ==> e == (PacketError::Length { len: b@.len() as usize }),
    {
        if b.len() == 3 {
            let r = u24 { lo: b[0], mid: b[1], hi: b[2] };
            assert(r.bytes() =~= b@);
            Ok(r)
        } else {
            Err(PacketError::Length { len: b.len() })
        }
    }
}

impl From<u8> for u24 {
    fn from(v: u8) -> (r: u24) {
        u24::from_u8(v)
    }
}

impl vstd::std_specs::convert::FromSpecImpl<u8> for u24 {
    open spec fn obeys_from_spec() -> bool {
        true
    }

    open spec fn from_spec(v: u8) -> u24 {
        u24 { lo: v, mid: 0, hi: 0 }
    }
}

impl From<u16> for u24 {
    fn from(v: u16) -> (r: u24) {
        u24::from_u16(v)
    }
}

impl vstd::std_specs::convert::FromSpecImpl<u16> for u24 {
    open spec fn obeys_from_spec() -> bool {
        true
    }

    open spec fn from_spec(v: u16) -> u24 {
        u24 { lo: (v % 256) as u8, mid: (v / 256) as u8, hi: 0 }
    }
}

} // verus!

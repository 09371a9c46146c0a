use vstd::prelude::*;

verus! {

/// Every way in which building, encoding or parsing a frame can fail.
#[derive(Debug, Clone, Copy, PartialEq, Eq, Structural)]
pub enum PacketError {
    /// A value does not fit in 24 bits.
    Overflow { value: u64, max: u32 },
    /// A fixed-width field was given the wrong number of bytes.
    Length { len: usize },
    /// The destination has less free space than the encoding needs.
    Capacity { remaining: usize, required: usize },
    /// Fewer bytes are buffered than a header needs.
    TooShort { remaining: usize, required: usize },
    /// The first four bytes are not the protocol's magic number.
    BadMagic { found: u32, expected: u32 },
    /// The version byte is not the compiled protocol version.
    BadVersion { version: u8, compiled: u8 },
    /// The serialized payload is longer than a 24-bit length can describe.
    PayloadTooLarge { len: usize },
    /// The payload bytes are malformed.
    Decode,
    /// The payload decoded without any populated variant.
    EmptyBody,
    /// The checksum of the re-serialized payload differs from the header's.
    Integrity { computed: u32, declared: u32 },
    /// The peer closed the stream in the middle of a message.
    Stream { buffered: usize },
}

} // verus!

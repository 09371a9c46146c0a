//! Framing and reassembly for a small game server's wire protocol: a fixed
//! 16-byte header followed by a length-delimited, checksummed payload.

mod error;

pub mod body;
pub mod connection;
pub mod logic;
pub mod misc;
pub mod packet;

pub use error::PacketError;

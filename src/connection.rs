use vstd::prelude::*;

use crate::body::MsgBody;
use crate::error::PacketError;
use crate::packet::{
    body_step, buffer_bytes, head_step, try_parse_body, try_parse_head, Msg, MsgHead,
};

verus! {

/// What one attempt to assemble a message came to.
#[derive(Clone, Copy, PartialEq, Eq, Structural, Debug)]
pub enum Poll {
    /// A complete, validated message.
    Ready(Msg),
    /// Not enough bytes yet: read more and try again.
    NeedMore,
    /// This attempt failed; the caller reports it and reads more.
    Failed(PacketError),
}

/// What to do after a read from the transport.
#[derive(Clone, Copy, PartialEq, Eq, Structural, Debug)]
pub enum AfterRead {
    /// Bytes arrived: try to assemble again.
    Retry,
    /// The stream ended cleanly between messages.
    End,
    /// The stream ended in the middle of a message.
    Closed(PacketError),
}

/// Reassembly state of one connection: the header read so far, if any.
#[derive(Clone, Copy, PartialEq, Eq, Structural, Debug)]
pub struct Reader {
    pub head: Option<MsgHead>,
}

/// The outcome of a body attempt for `h`, and the header still pending.
pub open spec fn body_poll(h: MsgHead, r: Result<Option<MsgBody>, PacketError>) -> (
    Poll,
    Option<MsgHead>,
) {
    match r {
        Ok(Some(b)) => (Poll::Ready(Msg(h, b)), None),
        Ok(None) => (Poll::NeedMore, Some(h)),
        Err(e) => (Poll::Failed(e), Some(h)),
    }
}

/// One assembly attempt from reader state `head` over the buffered bytes
/// `s`: its outcome, the next state and the bytes left. A header that is
/// taken is followed at once by an attempt at its envelope.
pub open spec fn poll_step(head: Option<MsgHead>, s: Seq<u8>) -> (Poll, Option<MsgHead>, Seq<u8>) {
    match head {
        Some(h) => {
            let (r, rest) = body_step(h, s);
            let (p, next) = body_poll(h, r);
            (p, next, rest)
        },
        None => match head_step(s) {
            (Ok(None), rest) => (Poll::NeedMore, None, rest),
            (Err(e), rest) => (Poll::Failed(e), None, rest),
            (Ok(Some(h)), rest) => {
                let (r, rest2) = body_step(h, rest);
                let (p, next) = body_poll(h, r);
                (p, next, rest2)
            },
        },
    }
}

impl Reader {
    pub fn new() -> (r: Reader)
        ensures
            r.head is None,
    {
        Reader { head: None }
    }

    /// Tries to assemble one message from the front of `buf`.
    pub fn poll(&mut self, buf: &mut bytes::BytesMut) -> (r: Poll)
        ensures
            (r, final(self).head, buffer_bytes(*final(buf))) == poll_step(
                old(self).head,
                buffer_bytes(*old(buf)),
            ),
    {
        let h = match self.head {
            Some(h) => h,
            None => match try_parse_head(buf) {
                Ok(None) => {
                    return Poll::NeedMore;
                },
                Err(e) => {
                    return Poll::Failed(e);
                },
                Ok(Some(h)) => h,
            },
        };
        match try_parse_body(&h, buf) {
            Ok(Some(b)) => {
                self.head = None;
                Poll::Ready(Msg(h, b))
            },
            Ok(None) => {
                self.head = Some(h);
                Poll::NeedMore
            },
            Err(e) => {
                self.head = Some(h);
                Poll::Failed(e)
            },
        }
    }

    /// Decides what follows a read of `n` bytes while `buffered` bytes wait:
    /// a zero-byte read ends the stream cleanly only when nothing is buffered
    /// and no header waits for its envelope.
    pub fn after_read(&self, n: usize, buffered: usize) -> (r: AfterRead)
        ensures
            n > 0 ==> r == AfterRead::Retry,
            n == 0 && buffered == 0 && self.head is None ==> r == AfterRead::End,
            n == 0 && (buffered > 0 || self.head is Some) ==> r == AfterRead::Closed(
                PacketError::Stream { buffered },
            ),
    {
        if n > 0 {
            AfterRead::Retry
        } else if buffered == 0 && self.head.is_none() {
            AfterRead::End
        } else {
            AfterRead::Closed(PacketError::Stream { buffered })
        }
    }
}

} // verus!

// SPDX-License-Identifier: GPL-3.0-or-later
//! Framing, the one abstraction that both sides of the tunnel share.
//!
//! The transport side speaks the gateway's framing, the link side speaks HDLC
//! toward the PPP daemon. A [`Framer`] turns either byte stream into whole
//! packets and back.

use crate::transport::buffer::buffered;
use bytes::BytesMut;
use vstd::prelude::*;

verus! {

/// Why a run of bytes is not a frame.
#[derive(Debug, Clone, Copy, PartialEq, Eq, Structural)]
pub enum FrameError {
    /// Two escape bytes in a row.
    DoubleEscape,
    /// The frame ends inside an escape, or is too short for its check bytes.
    Truncated,
    /// The check sequence does not come out right.
    BadChecksum,
    /// The gateway answered with HTTP: authentication or realm are wrong.
    HttpResponse,
    /// The transport header is malformed.
    InvalidHeader,
}

/// What stands at the front of a stretch of buffered bytes.
pub enum Front {
    /// No complete frame yet.
    Incomplete,
    /// A frame with this payload; it and what precedes it take `used` bytes.
    Frame { payload: Seq<u8>, used: int },
    /// `used` bytes that can be no frame.
    Invalid { error: FrameError, used: int },
}

/// Frames and deframes a byte stream into whole PPP packets.
pub trait Framer: Sized {
    /// What stands at the front of `src`.
    spec fn front(&self, src: Seq<u8>) -> Front;

    /// The bytes that frame `item`.
    spec fn framed(&self, item: Seq<u8>) -> Seq<u8>;

    /// The framer once it has encoded a packet.
    spec fn encoded_once(&self) -> Self;

    /// A frame takes at least one byte, and no more than there are; its payload
    /// is no longer than the bytes it came from.
    proof fn front_is_bounded(&self, src: Seq<u8>)
        ensures
            self.front(src) matches Front::Frame { payload, used } ==> 0 < used <= src.len()
                && payload.len() <= src.len(),
            self.front(src) matches Front::Invalid { used, .. } ==> 0 <= used <= src.len(),
    ;

    /// What stands at the front does not depend on what arrives after it.
    proof fn front_is_stable(&self, src: Seq<u8>, more: Seq<u8>)
        requires
            !(self.front(src) is Incomplete),
        ensures
            self.front(src + more) == self.front(src),
    ;

    /// Decoding does not depend on what was encoded before.
    proof fn front_survives_encoding(&self, src: Seq<u8>)
        ensures
            self.encoded_once().front(src) == self.front(src),
    ;

    /// Try to decode one frame from `src`. Returns `Ok(None)` if more bytes are
    /// needed. Consumes the frame's bytes from `src` when one is produced.
    fn decode(&mut self, src: &mut BytesMut) -> (r: Result<Option<BytesMut>, FrameError>)
        ensures
            *final(self) == *old(self),
            match old(self).front(buffered(*old(src))) {
                Front::Incomplete => {
                    &&& r matches Ok(None)
                    &&& buffered(*final(src)) == buffered(*old(src))
                },
                Front::Frame { payload, used } => {
                    &&& r matches Ok(Some(packet)) && buffered(packet) == payload
                    &&& buffered(*final(src)) == buffered(*old(src)).skip(used)
                },
                Front::Invalid { error, used } => {
                    &&& r matches Err(e) && e == error
                    &&& buffered(*final(src)) == buffered(*old(src)).skip(used)
                },
            },
    ;

    /// Encode one payload into `dst`.
    fn encode(&mut self, item: &[u8], dst: &mut BytesMut) -> (r: Result<(), FrameError>)
        requires
            buffered(*old(dst)).len() + 9 + 2 * item@.len() <= isize::MAX,
        ensures
            r is Ok,
            buffered(*final(dst)) == buffered(*old(dst)) + old(self).framed(item@),
            *final(self) == old(self).encoded_once(),
    ;
}

} // verus!

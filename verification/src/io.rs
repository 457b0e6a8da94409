// SPDX-License-Identifier: GPL-3.0-or-later
//! One direction of the tunnel: packets deframed from one side and reframed for
//! the other.
//!
//! A [`Pump`] holds the bytes that have arrived and not yet made a frame. Whoever
//! reads the stream feeds it each chunk and writes out what comes back, until the
//! stream closes or a frame is invalid.

use crate::framer::{FrameError, Framer, Front};
use crate::transport::buffer::{as_slice, buffered};
use crate::transport::framing::{FortiFramer, HdlcFramer, FLAG};
use crate::transport::roundtrip::{
    decodes_to, encoded_all, law_forti_stream, law_hdlc_stream, lemma_same_front,
};
use bytes::BytesMut;
use vstd::prelude::*;

verus! {

/// How many bytes to read at a time.
pub const READ_CHUNK: usize = 16 * 1024;

/// The room that a pump starts with.
const INITIAL_ROOM: usize = 64 * 1024;

/// What becomes of a stretch of bytes: the frames to write, the bytes kept, the
/// encoder afterwards, and the error that ends the stream, if there is one.
pub struct Flow<E> {
    pub out: Seq<Seq<u8>>,
    pub rest: Seq<u8>,
    pub enc: E,
    pub error: Option<FrameError>,
}

/// Deframe `src` with `dec` as far as it goes, and reframe each packet with `enc`.
pub open spec fn flow<D: Framer, E: Framer>(dec: D, enc: E, src: Seq<u8>) -> Flow<E>
    decreases src.len(),
{
    proof {
        dec.front_is_bounded(src);
    }
    match dec.front(src) {
        Front::Incomplete => Flow { out: Seq::empty(), rest: src, enc, error: None },
        Front::Invalid { error, used } => Flow {
            out: Seq::empty(),
            rest: src.skip(used),
            enc,
            error: Some(error),
        },
        Front::Frame { payload, used } => {
            let next = flow(dec, enc.encoded_once(), src.skip(used));
            Flow { out: seq![enc.framed(payload)] + next.out, ..next }
        },
    }
}

/// The frames that `enc` makes of `items`, one by one.
pub open spec fn reframed<E: Framer>(enc: E, items: Seq<Seq<u8>>) -> Seq<Seq<u8>>
    decreases items.len(),
{
    if items.len() == 0 {
        Seq::empty()
    } else {
        seq![enc.framed(items[0])] + reframed(enc.encoded_once(), items.drop_first())
    }
}

/// What the buffers of a list hold.
pub open spec fn contents(v: Seq<BytesMut>) -> Seq<Seq<u8>> {
    v.map_values(|b: BytesMut| buffered(b))
}

/// It makes no difference how a stream is cut into chunks: feeding two chunks one
/// after the other writes the same frames, keeps the same bytes and ends with the
/// same error as feeding them at once.
pub proof fn law_chunking<D: Framer, E: Framer>(dec: D, enc: E, src: Seq<u8>, more: Seq<u8>)
    ensures
        ({
            let first = flow(dec, enc, src);
            let second = flow(dec, first.enc, first.rest + more);
            let whole = flow(dec, enc, src + more);
            if first.error is Some {
                whole.out == first.out && whole.error == first.error && whole.enc == first.enc
            } else {
                &&& whole.out == first.out + second.out
                &&& whole.rest == second.rest
                &&& whole.enc == second.enc
                &&& whole.error == second.error
            }
        }),
    decreases src.len(),
{
    dec.front_is_bounded(src);
    let all = src + more;
    match dec.front(src) {
        Front::Incomplete => {
            let second = flow(dec, enc, all);
            assert(Seq::<Seq<u8>>::empty() + second.out =~= second.out);
        },
        Front::Invalid { error, used } => {
            dec.front_is_stable(src, more);
        },
        Front::Frame { payload, used } => {
            dec.front_is_stable(src, more);
            let rest = src.skip(used);
            assert(all.skip(used) =~= rest + more);
            law_chunking(dec, enc.encoded_once(), rest, more);
            let head = seq![enc.framed(payload)];
            let next = flow(dec, enc.encoded_once(), rest);
            let second = flow(dec, next.enc, next.rest + more);
            assert(head + (next.out + second.out) =~= (head + next.out) + second.out);
        },
    }
}

/// A stream that decodes to packets comes out as those packets, reframed, in the
/// same order; none is lost, added or changed.
pub proof fn law_pump_carries_packets<D: Framer, E: Framer>(
    dec: D,
    enc: E,
    src: Seq<u8>,
    items: Seq<Seq<u8>>,
    rest: Seq<u8>,
)
    requires
        decodes_to(dec, src, items, rest),
        dec.front(rest) is Incomplete,
    ensures
        flow(dec, enc, src).out == reframed(enc, items),
        flow(dec, enc, src).rest == rest,
        flow(dec, enc, src).error is None,
    decreases items.len(),
{
    if items.len() > 0 {
        if let Front::Frame { payload, used } = dec.front(src) {
            law_pump_carries_packets(
                dec,
                enc.encoded_once(),
                src.skip(used),
                items.drop_first(),
                rest,
            );
        }
    }
}

/// The bytes of a list of frames, one after the other.
pub open spec fn written(out: Seq<Seq<u8>>) -> Seq<u8>
    decreases out.len(),
{
    if out.len() == 0 {
        Seq::empty()
    } else {
        out[0] + written(out.drop_first())
    }
}

/// Frame by frame or at once, an encoder writes the same stream.
proof fn lemma_reframed_stream<E: Framer>(enc: E, items: Seq<Seq<u8>>)
    ensures
        written(reframed(enc, items)) == encoded_all(enc, items),
    decreases items.len(),
{
    if items.len() > 0 {
        let out = reframed(enc, items);
        lemma_reframed_stream(enc.encoded_once(), items.drop_first());
        assert(out.drop_first() =~= reframed(enc.encoded_once(), items.drop_first()));
    }
}

/// From pppd to the gateway nothing is lost: packets that pppd frames come out of
/// the pump as transport frames of the same packets, in the same order.
pub proof fn law_tunnel_carries_up(dec: HdlcFramer, pppd: HdlcFramer, items: Seq<Seq<u8>>)
    requires
        pppd.needs_flag(),
    ensures
        ({
            let f = flow(dec, FortiFramer, encoded_all(pppd, items));
            &&& f.error is None
            &&& written(f.out) == encoded_all(FortiFramer, items)
        }),
{
    let src = encoded_all(pppd, items);
    law_hdlc_stream(pppd, items);
    if items.len() > 0 {
        lemma_same_front(dec, pppd, src, items, seq![FLAG]);
        law_pump_carries_packets(dec, FortiFramer, src, items, seq![FLAG]);
    } else {
        dec.front_is_bounded(src);
        assert(src =~= Seq::<u8>::empty());
    }
    lemma_reframed_stream(FortiFramer, items);
}

/// From the gateway to pppd nothing is lost: packets that the gateway frames come
/// out of the pump as a stream that decodes to the same packets, in the same order.
pub proof fn law_tunnel_carries_down(enc: HdlcFramer, pppd: HdlcFramer, items: Seq<Seq<u8>>)
    requires
        enc.needs_flag(),
        items.len() > 0,
        forall|i: int| 0 <= i < items.len() ==> 1 <= (#[trigger] items[i]).len() <= 65529,
    ensures
        ({
            let f = flow(FortiFramer, enc, encoded_all(FortiFramer, items));
            &&& f.error is None
            &&& f.rest == Seq::<u8>::empty()
            &&& decodes_to(pppd, written(f.out), items, seq![FLAG])
        }),
{
    let src = encoded_all(FortiFramer, items);
    law_forti_stream(FortiFramer, items);
    law_pump_carries_packets(FortiFramer, enc, src, items, Seq::empty());
    lemma_reframed_stream(enc, items);
    law_hdlc_stream(enc, items);
    lemma_same_front(pppd, enc, encoded_all(enc, items), items, seq![FLAG]);
}

/// Pumps framed packets one way: deframes with `dec`, reframes with `enc`.
pub struct Pump<D, E> {
    dec: D,
    enc: E,
    buf: BytesMut,
}

impl<D: Framer, E: Framer> Pump<D, E> {
    /// The framer that undoes the frames.
    pub closed spec fn decoder(&self) -> D {
        self.dec
    }

    /// The framer that makes the new ones.
    pub closed spec fn encoder(&self) -> E {
        self.enc
    }

    /// The bytes that have not yet made a frame.
    pub closed spec fn kept(&self) -> Seq<u8> {
        buffered(self.buf)
    }

    pub fn new(dec: D, enc: E) -> (r: Self)
        ensures
            r.decoder() == dec,
            r.encoder() == enc,
            r.kept() == Seq::<u8>::empty(),
    {
        Pump { dec, enc, buf: BytesMut::with_capacity(INITIAL_ROOM) }
    }

    /// How many bytes have not yet made a frame.
    pub fn kept_len(&self) -> (n: usize)
        ensures
            n == self.kept().len(),
    {
        self.buf.len()
    }

    /// Take in a chunk. Returns the frames to write, in order, and the error that
    /// ends the stream, if one was met after them.
    pub fn feed(&mut self, chunk: &[u8]) -> (r: (Vec<BytesMut>, Option<FrameError>))
        requires
            9 + 2 * (old(self).kept().len() + chunk@.len()) <= isize::MAX,
        ensures
            ({
                let f = flow(old(self).decoder(), old(self).encoder(), old(self).kept() + chunk@);
                &&& contents(r.0@) == f.out
                &&& r.1 == f.error
                &&& final(self).kept() == f.rest
                &&& final(self).encoder() == f.enc
                &&& final(self).decoder() == old(self).decoder()
            }),
    {
        self.buf.extend_from_slice(chunk);
        let ghost whole = flow(self.dec, self.enc, buffered(self.buf));
        let ghost dec0 = self.dec;
        let ghost total = buffered(self.buf).len();
        let mut out: Vec<BytesMut> = Vec::new();
        assert(contents(out@) + whole.out =~= whole.out);
        loop
            invariant
                self.dec == dec0,
                dec0 == old(self).decoder(),
                whole == flow(
                    old(self).decoder(),
                    old(self).encoder(),
                    old(self).kept() + chunk@,
                ),
                buffered(self.buf).len() <= total,
                9 + 2 * total <= isize::MAX,
                whole.out == contents(out@) + flow(self.dec, self.enc, buffered(self.buf)).out,
                whole.rest == flow(self.dec, self.enc, buffered(self.buf)).rest,
                whole.enc == flow(self.dec, self.enc, buffered(self.buf)).enc,
                whole.error == flow(self.dec, self.enc, buffered(self.buf)).error,
            decreases buffered(self.buf).len(),
        {
            let ghost src = buffered(self.buf);
            let ghost enc0 = self.enc;
            proof {
                self.dec.front_is_bounded(src);
            }
            match self.dec.decode(&mut self.buf) {
                Ok(None) => {
                    assert(contents(out@) + Seq::<Seq<u8>>::empty() =~= contents(out@));
                    return (out, None);
                },
                Err(e) => {
                    assert(contents(out@) + Seq::<Seq<u8>>::empty() =~= contents(out@));
                    return (out, Some(e));
                },
                Ok(Some(pkt)) => {
                    let mut framed = BytesMut::new();
                    let outcome = self.enc.encode(as_slice(&pkt), &mut framed);
                    assert(outcome is Ok);
                    let ghost before = contents(out@);
                    let ghost next = flow(self.dec, self.enc, buffered(self.buf));
                    proof {
                        assert(buffered(framed) =~= enc0.framed(buffered(pkt)));
                    }
                    out.push(framed);
                    proof {
                        assert(contents(out@) =~= before.push(buffered(framed)));
                        assert(before + (seq![buffered(framed)] + next.out) =~= contents(out@)
                            + next.out);
                    }
                },
            }
        }
    }
}

} // verus!

// SPDX-License-Identifier: GPL-3.0-or-later
//! Frames on the wire: what any sender may write for a packet, what is read from
//! it, and what is written here.

use crate::framer::{FrameError, Framer, Front};
use crate::io::{flow, reframed};
use crate::seqs::{index_where, lemma_index_where, lemma_index_where_is};
use crate::transport::fcs::{
    check_bytes, fcs, law_address_control_checksum, law_fcs_concat, lemma_without_loop,
};
use crate::transport::framing::{
    address_control, escaped, flag, forti_header, frame_start, hdlc_body, hdlc_payload, http_prefix,
    lemma_escaped_push, not_flag, unescaped, FortiFramer, HdlcFramer, FLAG, MAGIC,
};
use crate::transport::roundtrip::{decodes_to, lemma_escaped_concat};
use vstd::prelude::*;

verus! {

/// One thing that a sender may put on the wire.
pub enum Symbol {
    /// A byte as it is.
    Plain(u8),
    /// A byte behind an escape, with its sixth bit flipped.
    Escaped(u8),
    /// A control character that means nothing, as serial links insert them.
    Filler(u8),
}

/// Whether a sender may write this: a plain byte is no control character and no
/// escape, and neither is the flipped byte an escape.
pub open spec fn lawful(s: Symbol) -> bool {
    match s {
        Symbol::Plain(b) => b >= 0x20 && b != 0x7d,
        Symbol::Escaped(b) => b ^ 0x20 != 0x7d,
        Symbol::Filler(b) => b < 0x20,
    }
}

/// Whether a sender may write all of these.
pub open spec fn all_lawful(symbols: Seq<Symbol>) -> bool {
    forall|i: int| 0 <= i < symbols.len() ==> lawful(#[trigger] symbols[i])
}

/// The bytes that are written.
pub open spec fn wire(symbols: Seq<Symbol>) -> Seq<u8>
    decreases symbols.len(),
{
    if symbols.len() == 0 {
        Seq::empty()
    } else {
        (match symbols[0] {
            Symbol::Plain(b) => seq![b],
            Symbol::Escaped(b) => seq![0x7du8, b ^ 0x20],
            Symbol::Filler(b) => seq![b],
        }) + wire(symbols.drop_first())
    }
}

/// The bytes that are meant.
pub open spec fn meant(symbols: Seq<Symbol>) -> Seq<u8>
    decreases symbols.len(),
{
    if symbols.len() == 0 {
        Seq::empty()
    } else {
        (match symbols[0] {
            Symbol::Plain(b) => seq![b],
            Symbol::Escaped(b) => seq![b],
            Symbol::Filler(_) => Seq::empty(),
        }) + meant(symbols.drop_first())
    }
}

proof fn lemma_flip_back(b: u8)
    by (bit_vector)
    ensures
        (b ^ 0x20) ^ 0x20 == b,
{
}

/// Whatever follows, reading goes over what was written to what it means.
proof fn lemma_reads_on(symbols: Seq<Symbol>, rest: Seq<u8>)
    requires
        all_lawful(symbols),
    ensures
        unescaped(wire(symbols) + rest) == match unescaped(rest) {
            Ok(more) => Ok::<Seq<u8>, FrameError>(meant(symbols) + more),
            Err(e) => Err(e),
        },
    decreases symbols.len(),
{
    let all = wire(symbols) + rest;
    if symbols.len() == 0 {
        assert(all =~= rest);
        if let Ok(more) = unescaped(rest) {
            assert(meant(symbols) + more =~= more);
        }
    } else {
        let tail = symbols.drop_first();
        assert(lawful(symbols[0]));
        assert forall|i: int| 0 <= i < tail.len() implies lawful(#[trigger] tail[i]) by {
            assert(tail[i] == symbols[i + 1]);
        }
        lemma_reads_on(tail, rest);
        match symbols[0] {
            Symbol::Plain(b) => {
                assert(all[0] == b);
                assert(all.skip(1) =~= wire(tail) + rest);
                if let Ok(more) = unescaped(rest) {
                    assert(seq![b] + (meant(tail) + more) =~= meant(symbols) + more);
                }
            },
            Symbol::Escaped(b) => {
                lemma_flip_back(b);
                assert(all[0] == 0x7d);
                assert(all[1] == b ^ 0x20);
                assert(all.skip(2) =~= wire(tail) + rest);
                if let Ok(more) = unescaped(rest) {
                    assert(seq![b] + (meant(tail) + more) =~= meant(symbols) + more);
                }
            },
            Symbol::Filler(b) => {
                assert(all[0] == b);
                assert(all.skip(1) =~= wire(tail) + rest);
                if let Ok(more) = unescaped(rest) {
                    assert(meant(tail) + more =~= meant(symbols) + more);
                }
            },
        }
    }
}

/// Whichever form a sender chose for each byte, what is read is what was meant;
/// two escapes in a row and an escape at the end are errors, wherever they stand.
pub proof fn law_any_form_is_read(symbols: Seq<Symbol>, rest: Seq<u8>)
    requires
        all_lawful(symbols),
    ensures
        unescaped(wire(symbols)) == Ok::<Seq<u8>, FrameError>(meant(symbols)),
        unescaped(wire(symbols) + seq![0x7du8]) == Err::<Seq<u8>, FrameError>(FrameError::Truncated),
        unescaped(wire(symbols) + seq![0x7du8, 0x7du8] + rest) == Err::<Seq<u8>, FrameError>(
            FrameError::DoubleEscape,
        ),
{
    lemma_reads_on(symbols, Seq::empty());
    assert(wire(symbols) + Seq::<u8>::empty() =~= wire(symbols));
    assert(meant(symbols) + Seq::<u8>::empty() =~= meant(symbols));
    lemma_reads_on(symbols, seq![0x7du8]);
    let double = seq![0x7du8, 0x7du8] + rest;
    lemma_reads_on(symbols, double);
    assert(double[0] == 0x7d && double[1] == 0x7d);
    assert(wire(symbols) + seq![0x7du8, 0x7du8] + rest =~= wire(symbols) + double);
}

/// Bytes that need no escape are read as they are, those with the top bit set
/// among them.
pub proof fn law_plain_bytes_are_kept(data: Seq<u8>)
    requires
        forall|i: int| 0 <= i < data.len() ==> #[trigger] data[i] >= 0x20 && data[i] != 0x7d,
    ensures
        unescaped(data) == Ok::<Seq<u8>, FrameError>(data),
    decreases data.len(),
{
    if data.len() > 0 {
        assert(data[0] >= 0x20 && data[0] != 0x7d);
        let tail = data.skip(1);
        assert forall|i: int| 0 <= i < tail.len() implies #[trigger] tail[i] >= 0x20 && tail[i]
            != 0x7d by {
            assert(tail[i] == data[i + 1]);
        }
        law_plain_bytes_are_kept(tail);
        assert(seq![data[0]] + tail =~= data);
    } else {
        assert(data =~= Seq::<u8>::empty());
    }
}

/// The packet that a frame carries is what was meant without its two check bytes,
/// if the check sequence over it comes out right; the address and control bytes
/// count in it, whether they are left out of the frame or not.
pub proof fn law_frame_payload(symbols: Seq<Symbol>)
    requires
        all_lawful(symbols),
    ensures
        ({
            let raw = meant(symbols);
            let n = raw.len() as int;
            let headed = seq![0xffu8, 0x7du8, 0x23u8];
            &&& n < 2 ==> hdlc_payload(headed + wire(symbols)) == Err::<Seq<u8>, FrameError>(
                FrameError::Truncated,
            )
            &&& n >= 2 && fcs(0xffff, seq![0xffu8, 0x03u8] + raw) == 0xf0b8 ==> hdlc_payload(
                headed + wire(symbols),
            ) == Ok::<Seq<u8>, FrameError>(raw.subrange(0, n - 2))
            &&& n >= 2 && fcs(0xffff, seq![0xffu8, 0x03u8] + raw) != 0xf0b8 ==> hdlc_payload(
                headed + wire(symbols),
            ) == Err::<Seq<u8>, FrameError>(FrameError::BadChecksum)
            &&& !headed.is_prefix_of(wire(symbols)) ==> {
                &&& n < 2 ==> hdlc_payload(wire(symbols)) == Err::<Seq<u8>, FrameError>(
                    FrameError::Truncated,
                )
                &&& n >= 2 && fcs(0xffff, raw) == 0xf0b8 ==> hdlc_payload(wire(symbols)) == Ok::<
                    Seq<u8>,
                    FrameError,
                >(raw.subrange(0, n - 2))
                &&& n >= 2 && fcs(0xffff, raw) != 0xf0b8 ==> hdlc_payload(wire(symbols)) == Err::<
                    Seq<u8>,
                    FrameError,
                >(FrameError::BadChecksum)
            }
        }),
{
    let raw = meant(symbols);
    let headed = seq![0xffu8, 0x7du8, 0x23u8];
    law_any_form_is_read(symbols, Seq::empty());
    law_address_control_checksum();
    law_fcs_concat(0xffff, seq![0xffu8, 0x03u8], raw);
    let frame = headed + wire(symbols);
    assert(frame.take(3) =~= headed);
    assert(headed =~= address_control());
    assert(headed.is_prefix_of(frame));
    assert(frame.skip(3) =~= wire(symbols));
    if raw.len() >= 2 {
        assert(raw.take(raw.len() - 2) =~= raw.subrange(0, raw.len() - 2));
    }
}

/// A frame stands between flags: what precedes the first flag is noise, flags may
/// be repeated, and the closing flag stays to open the next frame. Without a
/// closing flag more bytes are needed.
pub proof fn law_frame_between_flags(
    framer: HdlcFramer,
    noise: Seq<u8>,
    flags: Seq<u8>,
    frame: Seq<u8>,
    rest: Seq<u8>,
)
    requires
        forall|i: int| 0 <= i < noise.len() ==> #[trigger] noise[i] != 0x7e,
        forall|i: int| 0 <= i < flags.len() ==> #[trigger] flags[i] == 0x7e,
        forall|i: int| 0 <= i < frame.len() ==> #[trigger] frame[i] != 0x7e,
        flags.len() > 0,
        frame.len() > 0,
    ensures
        framer.front(noise + flags + frame + seq![0x7eu8] + rest) == match hdlc_payload(frame) {
            Ok(payload) => Front::Frame {
                payload,
                used: (noise.len() + flags.len() + frame.len()) as int,
            },
            Err(error) => Front::Invalid {
                error,
                used: (noise.len() + flags.len() + frame.len()) as int,
            },
        },
        framer.front(noise + flags + frame) is Incomplete,
        framer.front(noise + flags) is Incomplete,
        framer.front(noise) is Incomplete,
{
    let (a, b, c) = (noise.len() as int, flags.len() as int, frame.len() as int);
    let src = noise + flags + frame + seq![0x7eu8] + rest;
    lemma_opening(src, a);
    assert(src.skip(a) =~= flags + frame + seq![0x7eu8] + rest);
    lemma_run_of_flags(src, a, b);
    let tail = src.skip(a + b);
    assert forall|j: int| 0 <= j < c implies !flag()(#[trigger] tail[j]) by {
        assert(tail[j] == frame[j]);
    }
    assert(tail[c] == 0x7e);
    lemma_index_where_is(tail, flag(), c);
    assert(src.subrange(a + b, a + b + c) =~= frame);
    let open = noise + flags + frame;
    lemma_opening(open, a);
    lemma_run_of_flags(open, a, b);
    let tail = open.skip(a + b);
    assert forall|j: int| 0 <= j < c implies !flag()(#[trigger] tail[j]) by {
        assert(tail[j] == frame[j]);
    }
    lemma_index_where_is(tail, flag(), c);
    let only = noise + flags;
    lemma_opening(only, a);
    lemma_run_of_flags(only, a, b);
    lemma_index_where(only.skip(a + b), flag());
    lemma_opening(noise, a);
    lemma_index_where(noise.skip(a), not_flag());
    lemma_index_where(noise.skip(frame_start(noise)), flag());
}

proof fn lemma_opening(src: Seq<u8>, a: int)
    requires
        0 <= a <= src.len(),
        forall|i: int| 0 <= i < a ==> #[trigger] src[i] != 0x7e,
        a < src.len() ==> src[a] == 0x7e,
    ensures
        index_where(src, flag()) == a,
{
    lemma_index_where_is(src, flag(), a);
}

proof fn lemma_run_of_flags(src: Seq<u8>, a: int, b: int)
    requires
        0 <= a,
        0 <= b,
        a + b <= src.len(),
        index_where(src, flag()) == a,
        forall|i: int| a <= i < a + b ==> #[trigger] src[i] == 0x7e,
        a + b < src.len() ==> src[a + b] != 0x7e,
    ensures
        frame_start(src) == a + b,
{
    let tail = src.skip(a);
    assert forall|j: int| 0 <= j < b implies !not_flag()(#[trigger] tail[j]) by {
        assert(tail[j] == src[a + j]);
    }
    if a + b < src.len() {
        assert(tail[b] == src[a + b]);
    }
    lemma_index_where_is(tail, not_flag(), b);
}

/// The check sequence takes in byte after byte; one byte changes it as the
/// generator polynomial of X.25 has it, here in the form that needs no loop.
pub proof fn law_check_sequence(sum: u16, data: Seq<u8>, byte: u8)
    ensures
        fcs(sum, Seq::empty()) == sum,
        fcs(sum, data.push(byte)) == x25_step(fcs(sum, data), byte),
{
    assert(data.push(byte).drop_last() =~= data);
    assert(data.push(byte).last() == byte);
    lemma_without_loop(fcs(sum, data), byte);
}

/// How X.25 folds a byte into its check sequence.
pub open spec fn x25_step(sum: u16, byte: u8) -> u16 {
    let x: u16 = (sum ^ (byte as u16)) & 0xff;
    let y: u16 = (x ^ (x << 4)) & 0xff;
    (sum >> 8) ^ (y << 8) ^ (y << 3) ^ (y >> 4)
}

/// What is sent: control characters and the flag and escape bytes, with or without
/// their top bit, go behind an escape with the sixth bit flipped; all else as it
/// is.
pub proof fn law_bytes_sent(data: Seq<u8>, byte: u8)
    ensures
        escaped(Seq::empty()) == Seq::<u8>::empty(),
        escaped(data.push(byte)) == escaped(data) + if byte < 0x20 || byte & 0x7f == 0x7d || byte
            & 0x7f == 0x7e {
            seq![0x7du8, byte ^ 0x20]
        } else {
            seq![byte]
        },
{
    assert((byte & 0x7f == 0x7d) == (byte == 0x7d || byte == 0xfd)) by (bit_vector);
    assert((byte & 0x7f == 0x7e) == (byte == 0x7e || byte == 0xfe)) by (bit_vector);
    lemma_escaped_push(data, byte);
}

/// A frame that is sent holds the address and control bytes, the packet and the
/// complement of the check sequence over all of these, low byte first; it ends
/// with a flag, and the first one starts with one.
pub proof fn law_frame_sent(framer: HdlcFramer, item: Seq<u8>)
    ensures
        ({
            let sum = fcs(0xffff, seq![0xffu8, 0x03u8] + item);
            let check = seq![(!sum % 256) as u8, (!sum / 256) as u8];
            let frame = seq![0xffu8, 0x7du8, 0x23u8] + escaped(item + check) + seq![0x7eu8];
            &&& framer.needs_flag() ==> framer.framed(item) == seq![0x7eu8] + frame
            &&& !framer.needs_flag() ==> framer.framed(item) == frame
            &&& !framer.encoded_once().needs_flag()
        }),
{
    law_address_control_checksum();
    law_fcs_concat(0xffff, seq![0xffu8, 0x03u8], item);
    let sum = fcs(0xffff, seq![0xffu8, 0x03u8] + item);
    assert(((sum ^ 0xffff) & 0xff) == !sum % 256 && (((sum ^ 0xffff) >> 8) & 0xff) == !sum / 256)
        by (bit_vector);
    let check = seq![(!sum % 256) as u8, (!sum / 256) as u8];
    assert(check =~= check_bytes(sum));
    lemma_escaped_concat(item, check);
    framer.lemma_encoded_once();
    let frame = seq![0xffu8, 0x7du8, 0x23u8] + escaped(item + check) + seq![0x7eu8];
    assert(hdlc_body(item).push(FLAG) =~= frame);
    if framer.needs_flag() {
        assert((seq![FLAG] + hdlc_body(item)).push(FLAG) =~= seq![0x7eu8] + frame);
    } else {
        assert((Seq::<u8>::empty() + hdlc_body(item)).push(FLAG) =~= frame);
    }
}

/// A transport frame is six bytes and the packet: how long both are together, two
/// fixed bytes, and how long the packet is, the high byte first each time.
pub proof fn law_transport_frame_sent(framer: FortiFramer, item: Seq<u8>)
    requires
        item.len() <= 65529,
    ensures
        framer.framed(item) == seq![
            ((item.len() + 6) / 256) as u8,
            ((item.len() + 6) % 256) as u8,
            0x50u8,
            0x50u8,
            (item.len() / 256) as u8,
            (item.len() % 256) as u8,
        ] + item,
        framer.encoded_once() == framer,
{
    let n = item.len() as int;
    assert(MAGIC == 0x5050);
    assert(forti_header(n) =~= seq![
        ((n + 6) / 256) as u8,
        ((n + 6) % 256) as u8,
        0x50u8,
        0x50u8,
        (n / 256) as u8,
        (n % 256) as u8,
    ]);
}

/// What is read from the gateway: nothing before six bytes are there; an HTTP
/// answer and a header that is wrong in any part are errors; else the packet, once
/// all of it is there, and what follows it is left.
pub proof fn law_transport_frame_read(framer: FortiFramer, src: Seq<u8>)
    ensures
        ({
            let total = src[0] * 256 + src[1];
            let size = src[4] * 256 + src[5];
            let http = src.subrange(0, 6) == seq![0x48u8, 0x54u8, 0x54u8, 0x50u8, 0x2fu8, 0x31u8];
            let good = src[2] == 0x50 && src[3] == 0x50 && size >= 1 && total == size + 6;
            &&& src.len() < 6 ==> framer.front(src) is Incomplete
            &&& src.len() >= 6 && http ==> framer.front(src) == (Front::Invalid {
                error: FrameError::HttpResponse,
                used: 0,
            })
            &&& src.len() >= 6 && !http && !good ==> framer.front(src) == (Front::Invalid {
                error: FrameError::InvalidHeader,
                used: 0,
            })
            &&& src.len() >= 6 && !http && good && src.len() < size + 6 ==> framer.front(
                src,
            ) is Incomplete
            &&& src.len() >= 6 && !http && good && src.len() >= size + 6 ==> framer.front(src) == (
            Front::Frame { payload: src.subrange(6, size + 6), used: size + 6 })
        }),
{
    if src.len() >= 6 {
        assert(src.take(6) =~= src.subrange(0, 6));
        assert(http_prefix() =~= seq![0x48u8, 0x54u8, 0x54u8, 0x50u8, 0x2fu8, 0x31u8]);
    }
}

/// Packets in front of a broken frame still come through, in order; then the
/// stream ends with its error.
pub proof fn law_pump_stops_at_an_error<D: Framer, E: Framer>(
    dec: D,
    enc: E,
    src: Seq<u8>,
    items: Seq<Seq<u8>>,
    rest: Seq<u8>,
)
    requires
        decodes_to(dec, src, items, rest),
        dec.front(rest) is Invalid,
    ensures
        flow(dec, enc, src).out == reframed(enc, items),
        flow(dec, enc, src).error == Some(dec.front(rest)->Invalid_error),
    decreases items.len(),
{
    dec.front_is_bounded(src);
    if items.len() > 0 {
        if let Front::Frame { payload, used } = dec.front(src) {
            law_pump_stops_at_an_error(
                dec,
                enc.encoded_once(),
                src.skip(used),
                items.drop_first(),
                rest,
            );
        }
    }
}

/// Each packet goes out in a frame of its own, in order.
pub proof fn law_reframed<E: Framer>(enc: E, items: Seq<Seq<u8>>, i: int)
    requires
        0 <= i < items.len(),
        enc.encoded_once().encoded_once() == enc.encoded_once(),
    ensures
        reframed(enc, items).len() == items.len(),
        reframed(enc, items)[0] == enc.framed(items[0]),
        i > 0 ==> reframed(enc, items)[i] == enc.encoded_once().framed(items[i]),
    decreases items.len(),
{
    let tail = items.drop_first();
    if tail.len() > 0 {
        law_reframed(enc.encoded_once(), tail, if i > 0 {
            i - 1
        } else {
            0
        });
        if i > 0 {
            assert(tail[i - 1] == items[i]);
        }
    } else {
        assert(reframed(enc.encoded_once(), tail) =~= Seq::<Seq<u8>>::empty());
    }
}

} // verus!

// SPDX-License-Identifier: GPL-3.0-or-later
//! What is framed comes back: the laws that tie encoding to decoding.

use crate::framer::{Framer, Front};
use crate::seqs::lemma_index_where_is;
use crate::transport::fcs::{check_bytes, fcs, law_fcs_residue, ADDRESS_CONTROL_CHECKSUM};
use crate::transport::framing::{
    address_control, escaped, escaped_byte, field, field_at, flag, forti_front, forti_header,
    hdlc_body, hdlc_front, hdlc_payload, http_prefix, not_flag, sent_escaped, unescaped,
    FortiFramer, HdlcFramer, FLAG, MAGIC,
};
use vstd::prelude::*;

verus! {

/// The stream that `framer` makes of `items`.
pub open spec fn encoded_all<F: Framer>(framer: F, items: Seq<Seq<u8>>) -> Seq<u8>
    decreases items.len(),
{
    if items.len() == 0 {
        Seq::empty()
    } else {
        framer.framed(items[0]) + encoded_all(framer.encoded_once(), items.drop_first())
    }
}

/// Decoding `src` again and again yields `items`, one after the other, and leaves
/// `rest`.
pub open spec fn decodes_to<F: Framer>(
    framer: F,
    src: Seq<u8>,
    items: Seq<Seq<u8>>,
    rest: Seq<u8>,
) -> bool
    decreases items.len(),
{
    if items.len() == 0 {
        src == rest
    } else {
        framer.front(src) matches Front::Frame { payload, used } && payload == items[0]
            && decodes_to(framer, src.skip(used), items.drop_first(), rest)
    }
}

/// An escaped byte is flipped out of reach of every byte that has a meaning.
proof fn lemma_flip(byte: u8)
    by (bit_vector)
    ensures
        (byte ^ 0x20) ^ 0x20 == byte,
        (byte < 0x20 || byte == 0x7d || byte == 0x7e || byte == 0xfd || byte == 0xfe) ==> (byte
            ^ 0x20) >= 0x20 && (byte ^ 0x20) != 0x7d && (byte ^ 0x20) != 0x7e,
{
}

/// Between its flags a frame holds no flag and no control character, whatever it
/// carries.
pub proof fn law_escaped_is_clean(data: Seq<u8>)
    ensures
        forall|i: int|
            0 <= i < escaped(data).len() ==> #[trigger] escaped(data)[i] != FLAG && escaped(data)[i]
                >= 0x20,
    decreases data.len(),
{
    if data.len() > 0 {
        let head = escaped_byte(data[0]);
        let tail = escaped(data.drop_first());
        law_escaped_is_clean(data.drop_first());
        lemma_flip(data[0]);
        assert forall|i: int| 0 <= i < escaped(data).len() implies #[trigger] escaped(data)[i]
            != FLAG && escaped(data)[i] >= 0x20 by {
            if i < head.len() {
                assert(escaped(data)[i] == head[i]);
            } else {
                assert(escaped(data)[i] == tail[i - head.len()]);
            }
        }
    }
}

/// Undoing the escapes of escaped bytes gives the bytes back.
pub proof fn law_unescape_undoes_escape(data: Seq<u8>)
    ensures
        unescaped(escaped(data)) == Ok::<Seq<u8>, crate::framer::FrameError>(data),
    decreases data.len(),
{
    if data.len() > 0 {
        let b = data[0];
        let tail = escaped(data.drop_first());
        let all = escaped(data);
        law_unescape_undoes_escape(data.drop_first());
        lemma_flip(b);
        assert(all[0] == escaped_byte(b)[0]);
        if sent_escaped(b) {
            assert(all[1] == escaped_byte(b)[1]);
            assert(all.skip(2) =~= tail);
        } else {
            assert(all.skip(1) =~= tail);
        }
        assert(seq![b] + data.drop_first() =~= data);
    } else {
        assert(data =~= Seq::<u8>::empty());
    }
}

pub proof fn lemma_escaped_concat(a: Seq<u8>, b: Seq<u8>)
    ensures
        escaped(a + b) == escaped(a) + escaped(b),
    decreases a.len(),
{
    if a.len() == 0 {
        assert(a + b =~= b);
        assert(escaped(a) + escaped(b) =~= escaped(b));
    } else {
        assert((a + b).drop_first() =~= a.drop_first() + b);
        lemma_escaped_concat(a.drop_first(), b);
        assert(escaped_byte(a[0]) + (escaped(a.drop_first()) + escaped(b)) =~= (escaped_byte(a[0])
            + escaped(a.drop_first())) + escaped(b));
    }
}

/// The body of a frame carries the item it was made from.
proof fn lemma_body_payload(item: Seq<u8>)
    ensures
        hdlc_payload(hdlc_body(item)) == Ok::<Seq<u8>, crate::framer::FrameError>(item),
{
    let check = check_bytes(fcs(ADDRESS_CONTROL_CHECKSUM, item));
    let body = hdlc_body(item);
    lemma_escaped_concat(item, check);
    assert(body.take(3) =~= address_control());
    assert(address_control().is_prefix_of(body));
    assert(body.skip(3) =~= escaped(item + check));
    law_unescape_undoes_escape(item + check);
    law_fcs_residue(ADDRESS_CONTROL_CHECKSUM, item);
    assert((item + check).take(item.len() as int) =~= item);
}

proof fn lemma_body_is_clean(item: Seq<u8>)
    ensures
        hdlc_body(item).len() >= 3,
        forall|i: int| 0 <= i < hdlc_body(item).len() ==> #[trigger] hdlc_body(item)[i] != FLAG,
{
    let check = check_bytes(fcs(ADDRESS_CONTROL_CHECKSUM, item));
    let body = hdlc_body(item);
    let a = escaped(item);
    law_escaped_is_clean(item);
    law_escaped_is_clean(check);
    assert forall|i: int| 0 <= i < body.len() implies #[trigger] body[i] != FLAG by {
        if i < 3 {
            assert(body[i] == address_control()[i]);
        } else if i < 3 + a.len() {
            assert(body[i] == a[i - 3]);
        } else {
            assert(body[i] == escaped(check)[i - 3 - a.len()]);
        }
    }
}

/// A frame that stands between two flags decodes to what it was made from,
/// whatever follows; the closing flag stays for the next frame.
pub proof fn law_hdlc_roundtrip(item: Seq<u8>, rest: Seq<u8>)
    ensures
        hdlc_front((seq![FLAG] + hdlc_body(item)).push(FLAG) + rest) == (Front::Frame {
            payload: item,
            used: 1 + hdlc_body(item).len() as int,
        }),
{
    let body = hdlc_body(item);
    let src = (seq![FLAG] + body).push(FLAG) + rest;
    let end = 1 + body.len() as int;
    lemma_body_is_clean(item);
    assert(src[0] == FLAG);
    assert forall|i: int| 0 <= i < body.len() implies src[1 + i] == #[trigger] body[i] by {}
    lemma_index_where_is(src, flag(), 0);
    assert(src.skip(0) =~= src);
    assert(src[1] == body[0]);
    lemma_index_where_is(src, not_flag(), 1);
    let tail = src.skip(1);
    assert forall|j: int| 0 <= j < body.len() implies !flag()(#[trigger] tail[j]) by {
        assert(tail[j] == body[j]);
    }
    assert(tail[body.len() as int] == FLAG);
    lemma_index_where_is(tail, flag(), body.len() as int);
    assert(src.subrange(1, end) =~= body);
    lemma_body_payload(item);
}

proof fn lemma_hdlc_stream_after_flag(framer: HdlcFramer, items: Seq<Seq<u8>>)
    requires
        !framer.needs_flag(),
    ensures
        decodes_to(framer, seq![FLAG] + encoded_all(framer, items), items, seq![FLAG]),
    decreases items.len(),
{
    let src = seq![FLAG] + encoded_all(framer, items);
    if items.len() == 0 {
        assert(src =~= seq![FLAG]);
    } else {
        let next = framer.encoded_once();
        framer.lemma_encoded_once();
        let rest = encoded_all(next, items.drop_first());
        let body = hdlc_body(items[0]);
        assert(src =~= (seq![FLAG] + body).push(FLAG) + rest);
        law_hdlc_roundtrip(items[0], rest);
        assert(src.skip(1 + body.len() as int) =~= seq![FLAG] + rest);
        lemma_hdlc_stream_after_flag(next, items.drop_first());
        lemma_same_front(framer, next, seq![FLAG] + rest, items.drop_first(), seq![FLAG]);
    }
}

/// Whatever a fresh encoder is given to encode, decoding its stream yields the
/// same packets in the same order; all that is left is the last closing flag,
/// which is no frame.
pub proof fn law_hdlc_stream(framer: HdlcFramer, items: Seq<Seq<u8>>)
    requires
        framer.needs_flag(),
    ensures
        items.len() > 0 ==> decodes_to(framer, encoded_all(framer, items), items, seq![FLAG]),
        hdlc_front(seq![FLAG]) is Incomplete,
{
    let left = seq![FLAG];
    lemma_index_where_is(left, flag(), 0);
    assert(left.skip(0) =~= left);
    lemma_index_where_is(left, not_flag(), 1);
    lemma_index_where_is(left.skip(1), flag(), 0);
    if items.len() > 0 {
        let next = framer.encoded_once();
        framer.lemma_encoded_once();
        let rest = encoded_all(next, items.drop_first());
        let src = encoded_all(framer, items);
        let body = hdlc_body(items[0]);
        assert(src =~= (seq![FLAG] + body).push(FLAG) + rest);
        law_hdlc_roundtrip(items[0], rest);
        assert(src.skip(1 + body.len() as int) =~= seq![FLAG] + rest);
        lemma_hdlc_stream_after_flag(next, items.drop_first());
        lemma_same_front(framer, next, seq![FLAG] + rest, items.drop_first(), seq![FLAG]);
    }
}

/// Two HDLC framers decode alike, whatever each has encoded.
pub proof fn lemma_same_front(
    a: HdlcFramer,
    b: HdlcFramer,
    src: Seq<u8>,
    items: Seq<Seq<u8>>,
    rest: Seq<u8>,
)
    requires
        decodes_to(b, src, items, rest),
    ensures
        decodes_to(a, src, items, rest),
    decreases items.len(),
{
    if items.len() > 0 {
        if let Front::Frame { payload, used } = b.front(src) {
            lemma_same_front(a, b, src.skip(used), items.drop_first(), rest);
        }
    }
}

/// A packet that the transport header can describe comes back from its frame,
/// whatever follows.
pub proof fn law_forti_roundtrip(item: Seq<u8>, rest: Seq<u8>)
    requires
        1 <= item.len() <= 65529,
    ensures
        forti_front(forti_header(item.len() as int) + item + rest) == (Front::Frame {
            payload: item,
            used: item.len() as int + 6,
        }),
{
    let n = item.len() as int;
    let src = forti_header(n) + item + rest;
    assert(field(MAGIC as int) =~= seq![0x50u8, 0x50u8]);
    assert(src[0] == ((n + 6) / 256) % 256);
    assert(src[1] == (n + 6) % 256);
    assert(src[2] == 0x50 && src[3] == 0x50);
    assert(src[4] == (n / 256) % 256);
    assert(src[5] == n % 256);
    assert(field_at(src, 0) == n + 6);
    assert(field_at(src, 2) == MAGIC);
    assert(field_at(src, 4) == n);
    assert(src.take(6) != http_prefix()) by {
        assert(src.take(6)[2] != http_prefix()[2]);
    }
    assert(src.subrange(6, n + 6) =~= item);
}

/// What follows a framed packet in a stream is what was put there.
proof fn lemma_forti_frame_then_rest(framer: FortiFramer, item: Seq<u8>, rest: Seq<u8>)
    ensures
        framer.framed(item) + rest == forti_header(item.len() as int) + item + rest,
        (framer.framed(item) + rest).skip(item.len() as int + 6) == rest,
{
    let frame = framer.framed(item);
    assert(frame.len() == item.len() + 6);
    assert((frame + rest).skip(frame.len() as int) =~= rest);
}

/// The first packet of a stream is decoded, and the rest is left.
proof fn lemma_forti_front(framer: FortiFramer, item: Seq<u8>, rest: Seq<u8>)
    requires
        1 <= item.len() <= 65529,
    ensures
        framer.front(framer.framed(item) + rest) == (Front::Frame {
            payload: item,
            used: item.len() as int + 6,
        }),
{
    lemma_forti_frame_then_rest(framer, item, rest);
    law_forti_roundtrip(item, rest);
}

/// Decoding an encoded stream yields the same packets in the same order and
/// leaves nothing.
pub proof fn law_forti_stream(framer: FortiFramer, items: Seq<Seq<u8>>)
    requires
        forall|i: int| 0 <= i < items.len() ==> 1 <= (#[trigger] items[i]).len() <= 65529,
    ensures
        decodes_to(framer, encoded_all(framer, items), items, Seq::empty()),
    decreases items.len(),
{
    if items.len() > 0 {
        let tail = items.drop_first();
        let rest = encoded_all(framer, tail);
        assert forall|i: int| 0 <= i < tail.len() implies 1 <= (#[trigger] tail[i]).len()
            <= 65529 by {
            assert(tail[i] == items[i + 1]);
        }
        law_forti_stream(framer, tail);
        lemma_forti_front(framer, items[0], rest);
        lemma_forti_frame_then_rest(framer, items[0], rest);
    }
}

} // verus!

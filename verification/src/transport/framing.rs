// SPDX-License-Identifier: GPL-3.0-or-later
//! PPP framing implementations.
//!
//! - [`HdlcFramer`]: HDLC async-control-character framing spoken toward `pppd`.
//! - [`FortiFramer`]: Fortinet's 6-byte `0x5050` length header spoken toward
//!   the gateway over the TLS tunnel.

use crate::framer::{FrameError, Framer, Front};
use crate::seqs::{index_where, lemma_index_where, lemma_index_where_is};
use crate::transport::buffer::{advance, as_slice, buffered, put_slice, put_u16, put_u8};
use crate::transport::fcs::{
    check_bytes, fcs, frame_checksum_16bit, ADDRESS_CONTROL_CHECKSUM, GOOD_CHECKSUM,
};
use bytes::BytesMut;
use vstd::prelude::*;
use vstd::slice::slice_subrange;

verus! {

/// Opens and closes a frame.
pub const FLAG: u8 = 0x7e;

/// Announces that the next byte is stored with one bit flipped.
pub const ESCAPE: u8 = 0x7d;

/// The flipped bit.
pub const ESCAPE_BIT: u8 = 0x20;

/// Whether a byte must be escaped when sent.
pub open spec fn sent_escaped(byte: u8) -> bool {
    byte < 0x20 || byte == 0x7d || byte == 0x7e || byte == 0xfd || byte == 0xfe
}

fn in_sending_accm(byte: u8) -> (r: bool)
    ensures
        r == sent_escaped(byte),
{
    assert(((byte & 0x7f) == 0x7d) == (byte == 0x7d || byte == 0xfd)) by (bit_vector);
    assert(((byte & 0x7f) == 0x7e) == (byte == 0x7e || byte == 0xfe)) by (bit_vector);
    byte < 0x20 || (byte & 0x7f) == 0x7d || (byte & 0x7f) == 0x7e
}

fn in_receiving_accm(byte: u8) -> (r: bool)
    ensures
        r == (byte < 0x20),
{
    byte < 0x20
}

/// One byte as it is sent.
pub open spec fn escaped_byte(byte: u8) -> Seq<u8> {
    if sent_escaped(byte) {
        seq![ESCAPE, byte ^ ESCAPE_BIT]
    } else {
        seq![byte]
    }
}

/// A run of bytes as it is sent.
pub open spec fn escaped(data: Seq<u8>) -> Seq<u8>
    decreases data.len(),
{
    if data.len() == 0 {
        Seq::empty()
    } else {
        escaped_byte(data[0]) + escaped(data.drop_first())
    }
}

/// The bytes that a received run stands for: escapes undone, bare control
/// characters dropped.
pub open spec fn unescaped(data: Seq<u8>) -> Result<Seq<u8>, FrameError>
    decreases data.len(),
{
    if data.len() == 0 {
        Ok(Seq::empty())
    } else if data[0] == ESCAPE {
        if data.len() == 1 {
            Err(FrameError::Truncated)
        } else if data[1] == ESCAPE {
            Err(FrameError::DoubleEscape)
        } else {
            match unescaped(data.skip(2)) {
                Ok(rest) => Ok(seq![data[1] ^ ESCAPE_BIT] + rest),
                Err(e) => Err(e),
            }
        }
    } else {
        match unescaped(data.skip(1)) {
            Ok(rest) => Ok(
                if data[0] < 0x20 {
                    rest
                } else {
                    seq![data[0]] + rest
                },
            ),
            Err(e) => Err(e),
        }
    }
}

/// The address and control bytes as they are sent: 0xff as it is, 0x03 escaped.
pub open spec fn address_control() -> Seq<u8> {
    seq![0xffu8, ESCAPE, 0x23u8]
}

/// Everything of a frame but its flags.
pub open spec fn hdlc_body(item: Seq<u8>) -> Seq<u8> {
    address_control() + escaped(item) + escaped(check_bytes(fcs(ADDRESS_CONTROL_CHECKSUM, item)))
}

/// What the bytes between two flags carry.
pub open spec fn hdlc_payload(frame: Seq<u8>) -> Result<Seq<u8>, FrameError> {
    let headed = address_control().is_prefix_of(frame);
    let content = if headed {
        frame.skip(3)
    } else {
        frame
    };
    let start: u16 = if headed {
        ADDRESS_CONTROL_CHECKSUM
    } else {
        0xffff
    };
    match unescaped(content) {
        Err(e) => Err(e),
        Ok(raw) => if raw.len() < 2 {
            Err(FrameError::Truncated)
        } else if fcs(start, raw) != GOOD_CHECKSUM {
            Err(FrameError::BadChecksum)
        } else {
            Ok(raw.take(raw.len() - 2))
        },
    }
}

/// Recognises the flag byte.
pub open spec fn flag() -> spec_fn(u8) -> bool {
    |b: u8| b == FLAG
}

/// Recognises every other byte.
pub open spec fn not_flag() -> spec_fn(u8) -> bool {
    |b: u8| b != FLAG
}

/// Where the first frame starts: past the first run of flags.
pub open spec fn frame_start(src: Seq<u8>) -> int {
    let opening = index_where(src, flag());
    opening + index_where(src.skip(opening), not_flag())
}

/// Where the first frame ends: at the next flag, or at the end of `src`.
pub open spec fn frame_end(src: Seq<u8>) -> int {
    frame_start(src) + index_where(src.skip(frame_start(src)), flag())
}

/// What stands at the front of an HDLC stream. The closing flag is left in
/// place: it opens the next frame.
pub open spec fn hdlc_front(src: Seq<u8>) -> Front {
    let end = frame_end(src);
    if end >= src.len() {
        Front::Incomplete
    } else {
        match hdlc_payload(src.subrange(frame_start(src), end)) {
            Ok(payload) => Front::Frame { payload, used: end },
            Err(error) => Front::Invalid { error, used: end },
        }
    }
}

/// Speaks HDLC toward the PPP daemon.
pub struct HdlcFramer {
    need_flag_sequence: bool,
}

impl HdlcFramer {
    /// Whether the next frame opens with a flag of its own.
    pub closed spec fn needs_flag(&self) -> bool {
        self.need_flag_sequence
    }

    /// Once it has encoded a packet, a framer relies on the closing flag of that
    /// packet.
    pub proof fn lemma_encoded_once(&self)
        ensures
            !self.encoded_once().needs_flag(),
    {
    }

    pub fn new() -> (r: Self)
        ensures
            r.needs_flag(),
    {
        Self { need_flag_sequence: true }
    }
}

/// The bounds of the first complete frame, between its flags.
fn find_frame(src: &[u8]) -> (r: Option<(usize, usize)>)
    ensures
        match r {
            Some((start, end)) => {
                &&& start == frame_start(src@)
                &&& end == frame_end(src@)
                &&& start < end < src@.len()
            },
            None => frame_end(src@) >= src@.len(),
        },
{
    let n: usize = src.len();
    let mut opening: usize = 0;
    while opening < n && src[opening] != FLAG
        invariant
            opening <= n == src@.len(),
            forall|j: int| 0 <= j < opening ==> src@[j] != FLAG,
        decreases n - opening,
    {
        opening = opening + 1;
    }
    proof {
        lemma_index_where_is(src@, flag(), opening as int);
    }
    let mut start: usize = opening;
    while start < n && src[start] == FLAG
        invariant
            opening <= start <= n == src@.len(),
            forall|j: int| opening <= j < start ==> src@[j] == FLAG,
        decreases n - start,
    {
        start = start + 1;
    }
    proof {
        lemma_index_where_is(src@.skip(opening as int), not_flag(), start - opening);
    }
    let mut end: usize = start;
    while end < n && src[end] != FLAG
        invariant
            start <= end <= n == src@.len(),
            forall|j: int| start <= j < end ==> src@[j] != FLAG,
        decreases n - end,
    {
        end = end + 1;
    }
    proof {
        lemma_index_where_is(src@.skip(start as int), flag(), end - start);
    }
    if end < n {
        Some((start, end))
    } else {
        None
    }
}

/// Undo the escapes of `data`.
fn unescape(data: &[u8]) -> (r: Result<BytesMut, FrameError>)
    requires
        data@.len() <= isize::MAX,
    ensures
        match unescaped(data@) {
            Ok(raw) => r matches Ok(buf) && buffered(buf) == raw,
            Err(error) => r matches Err(e) && e == error,
        },
{
    let n: usize = data.len();
    let mut decoded = BytesMut::with_capacity(n);
    let mut i: usize = 0;
    proof {
        assert(data@.skip(0) =~= data@);
        assert(unescaped(data@) == match unescaped(data@.skip(0)) {
            Ok(rest) => Ok::<Seq<u8>, FrameError>(buffered(decoded) + rest),
            Err(e) => Err(e),
        }) by {
            if let Ok(rest) = unescaped(data@) {
                assert(buffered(decoded) + rest =~= rest);
            }
        }
    }
    while i < n
        invariant
            i <= n == data@.len(),
            n <= isize::MAX,
            buffered(decoded).len() <= i,
            unescaped(data@) == match unescaped(data@.skip(i as int)) {
                Ok(rest) => Ok::<Seq<u8>, FrameError>(buffered(decoded) + rest),
                Err(e) => Err(e),
            },
        decreases n - i,
    {
        let byte: u8 = data[i];
        let ghost before = buffered(decoded);
        let ghost tail = data@.skip(i as int);
        if byte == ESCAPE {
            if i + 1 >= n {
                return Err(FrameError::Truncated);
            }
            let next: u8 = data[i + 1];
            if next == ESCAPE {
                return Err(FrameError::DoubleEscape);
            }
            put_u8(&mut decoded, next ^ ESCAPE_BIT);
            proof {
                assert(tail.skip(2) =~= data@.skip(i + 2));
                if let Ok(rest) = unescaped(tail.skip(2)) {
                    assert(before + (seq![next ^ ESCAPE_BIT] + rest) =~= buffered(decoded) + rest);
                }
            }
            i = i + 2;
        } else {
            proof {
                assert(tail.skip(1) =~= data@.skip(i + 1));
            }
            if !in_receiving_accm(byte) {
                put_u8(&mut decoded, byte);
                proof {
                    if let Ok(rest) = unescaped(tail.skip(1)) {
                        assert(before + (seq![byte] + rest) =~= buffered(decoded) + rest);
                    }
                }
            }
            i = i + 1;
        }
    }
    proof {
        assert(data@.skip(i as int) =~= Seq::<u8>::empty());
        assert(buffered(decoded) + Seq::<u8>::empty() =~= buffered(decoded));
    }
    Ok(decoded)
}

/// Append `byte` as it is sent.
fn put_escaped(dst: &mut BytesMut, byte: u8)
    requires
        buffered(*old(dst)).len() + 2 <= isize::MAX,
    ensures
        buffered(*final(dst)) == buffered(*old(dst)) + escaped_byte(byte),
{
    if in_sending_accm(byte) {
        put_u8(dst, ESCAPE);
        put_u8(dst, byte ^ ESCAPE_BIT);
    } else {
        put_u8(dst, byte);
    }
    assert(buffered(*dst) =~= buffered(*old(dst)) + escaped_byte(byte));
}

/// Escaping works byte by byte from either end.
pub proof fn lemma_escaped_push(data: Seq<u8>, byte: u8)
    ensures
        escaped(data.push(byte)) == escaped(data) + escaped_byte(byte),
    decreases data.len(),
{
    if data.len() == 0 {
        reveal_with_fuel(escaped, 2);
        assert(data.push(byte).drop_first() =~= Seq::<u8>::empty());
        assert(escaped_byte(byte) + Seq::<u8>::empty() =~= Seq::<u8>::empty() + escaped_byte(byte));
    } else {
        lemma_escaped_push(data.drop_first(), byte);
        assert(data.push(byte).drop_first() =~= data.drop_first().push(byte));
        assert(escaped_byte(data[0]) + (escaped(data.drop_first()) + escaped_byte(byte)) =~= (
        escaped_byte(data[0]) + escaped(data.drop_first())) + escaped_byte(byte));
    }
}

/// No byte is sent as more than two.
proof fn lemma_escaped_len(data: Seq<u8>)
    ensures
        data.len() <= escaped(data).len() <= 2 * data.len(),
    decreases data.len(),
{
    if data.len() > 0 {
        lemma_escaped_len(data.drop_first());
    }
}

/// Append the bytes of `item` as they are sent.
fn put_all_escaped(dst: &mut BytesMut, item: &[u8])
    requires
        buffered(*old(dst)).len() + 2 * item@.len() <= isize::MAX,
    ensures
        buffered(*final(dst)) == buffered(*old(dst)) + escaped(item@),
{
    let ghost opened = buffered(*dst);
    let mut i: usize = 0;
    assert(escaped(item@.take(0)) =~= Seq::<u8>::empty());
    while i < item.len()
        invariant
            i <= item@.len(),
            opened.len() + 2 * item@.len() <= isize::MAX,
            buffered(*dst) =~= opened + escaped(item@.take(i as int)),
        decreases item@.len() - i,
    {
        proof {
            lemma_escaped_len(item@.take(i as int));
            lemma_escaped_push(item@.take(i as int), item@[i as int]);
            assert(item@.take(i + 1) =~= item@.take(i as int).push(item@[i as int]));
        }
        put_escaped(dst, item[i]);
        i = i + 1;
    }
    assert(item@.take(i as int) =~= item@);
}

/// Append the check bytes of a checksum as they are sent.
fn put_check_bytes(dst: &mut BytesMut, sum: u16)
    requires
        buffered(*old(dst)).len() + 4 <= isize::MAX,
    ensures
        buffered(*final(dst)) == buffered(*old(dst)) + escaped(check_bytes(sum)),
        buffered(*final(dst)).len() <= buffered(*old(dst)).len() + 4,
{
    let checksum: u16 = sum ^ 0xffff;
    let low: u8 = (checksum & 0xff) as u8;
    let high: u8 = ((checksum >> 8) & 0xff) as u8;
    put_escaped(dst, low);
    put_escaped(dst, high);
    proof {
        let t = check_bytes(sum);
        assert(t.drop_first() =~= seq![high]);
        assert(t.drop_first().drop_first() =~= Seq::<u8>::empty());
        reveal_with_fuel(escaped, 3);
        assert(escaped(t) =~= escaped_byte(low) + escaped_byte(high));
    }
    assert(buffered(*dst) =~= buffered(*old(dst)) + escaped(check_bytes(sum)));
}

/// A frame lies inside the bytes it was found in, between two flags.
proof fn lemma_frame_bounds(src: Seq<u8>)
    ensures
        0 <= frame_start(src) <= frame_end(src) <= src.len(),
        frame_end(src) < src.len() ==> {
            &&& index_where(src, flag()) < frame_start(src) < frame_end(src)
            &&& src[frame_end(src)] == FLAG
        },
{
    let opening = index_where(src, flag());
    lemma_index_where(src, flag());
    lemma_index_where(src.skip(opening), not_flag());
    let start = frame_start(src);
    lemma_index_where(src.skip(start), flag());
    let end = frame_end(src);
    if end < src.len() {
        assert(src.skip(start)[end - start] == src[end]);
        assert(src.skip(opening)[0] == src[opening]);
        assert(src.skip(opening)[start - opening] == src[start]);
    }
}

/// Undoing escapes never adds bytes.
proof fn lemma_unescaped_len(data: Seq<u8>)
    ensures
        unescaped(data) matches Ok(raw) ==> raw.len() <= data.len(),
    decreases data.len(),
{
    if data.len() > 0 {
        lemma_unescaped_len(data.skip(1));
        if data.len() > 1 {
            lemma_unescaped_len(data.skip(2));
        }
    }
}

impl Framer for HdlcFramer {
    open spec fn front(&self, src: Seq<u8>) -> Front {
        hdlc_front(src)
    }

    open spec fn framed(&self, item: Seq<u8>) -> Seq<u8> {
        let opening = if self.needs_flag() {
            seq![FLAG]
        } else {
            Seq::empty()
        };
        (opening + hdlc_body(item)).push(FLAG)
    }

    closed spec fn encoded_once(&self) -> Self {
        HdlcFramer { need_flag_sequence: false }
    }

    proof fn front_is_bounded(&self, src: Seq<u8>) {
        lemma_frame_bounds(src);
        let end = frame_end(src);
        if end < src.len() {
            let frame = src.subrange(frame_start(src), end);
            lemma_unescaped_len(frame);
            if address_control().is_prefix_of(frame) {
                lemma_unescaped_len(frame.skip(3));
            }
        }
    }

    proof fn front_is_stable(&self, src: Seq<u8>, more: Seq<u8>) {
        lemma_frame_bounds(src);
        let all = src + more;
        let opening = index_where(src, flag());
        let start = frame_start(src);
        let end = frame_end(src);
        lemma_index_where(src, flag());
        lemma_index_where(src.skip(opening), not_flag());
        lemma_index_where(src.skip(start), flag());
        lemma_index_where_is(all, flag(), opening);
        assert(all.skip(opening) =~= src.skip(opening) + more);
        lemma_index_where_is(all.skip(opening), not_flag(), start - opening);
        assert(all.skip(start) =~= src.skip(start) + more);
        lemma_index_where_is(all.skip(start), flag(), end - start);
        assert(all.subrange(start, end) =~= src.subrange(start, end));
    }

    proof fn front_survives_encoding(&self, src: Seq<u8>) {
    }

    fn decode(&mut self, src: &mut BytesMut) -> (r: Result<Option<BytesMut>, FrameError>) {
        let ghost whole = buffered(*src);
        let n: usize = src.len();
        assert(n <= isize::MAX);
        let (start, end) = match find_frame(as_slice(src)) {
            Some(bounds) => bounds,
            None => {
                return Ok(None);
            },
        };
        let ghost frame = whole.subrange(start as int, end as int);
        let headed: bool = {
            let bytes = as_slice(src);
            end - start >= 3 && bytes[start] == 0xff && bytes[start + 1] == ESCAPE && bytes[start
                + 2] == 0x23
        };
        proof {
            assert(headed == address_control().is_prefix_of(frame)) by {
                if headed {
                    assert(address_control() =~= frame.take(3));
                }
                if address_control().is_prefix_of(frame) {
                    assert(frame[0] == address_control()[0]);
                    assert(frame[1] == address_control()[1]);
                    assert(frame[2] == address_control()[2]);
                }
            }
        }
        let from: usize = if headed {
            start + 3
        } else {
            start
        };
        proof {
            assert(whole.subrange(from as int, end as int) =~= if headed {
                frame.skip(3)
            } else {
                frame
            });
        }
        let outcome = unescape(slice_subrange(as_slice(src), from, end));
        advance(src, end);
        let mut decoded = match outcome {
            Ok(buf) => buf,
            Err(e) => {
                return Err(e);
            },
        };
        if decoded.len() < 2 {
            return Err(FrameError::Truncated);
        }
        let data_len: usize = decoded.len() - 2;
        let initial: u16 = if headed {
            ADDRESS_CONTROL_CHECKSUM
        } else {
            0xffff
        };
        let checksum: u16 = frame_checksum_16bit(initial, as_slice(&decoded));
        if checksum != GOOD_CHECKSUM {
            return Err(FrameError::BadChecksum);
        }
        decoded.truncate(data_len);
        Ok(Some(decoded))
    }

    fn encode(&mut self, item: &[u8], dst: &mut BytesMut) -> (r: Result<(), FrameError>) {
        let ghost before = buffered(*dst);
        let estimated_len: usize = 9 + 2 * item.len();
        dst.reserve(estimated_len);
        if self.need_flag_sequence {
            put_u8(dst, FLAG);
        }
        put_u8(dst, 0xff);
        put_u8(dst, ESCAPE);
        put_u8(dst, 0x23);
        put_all_escaped(dst, item);
        proof {
            lemma_escaped_len(item@);
        }
        let sum: u16 = frame_checksum_16bit(ADDRESS_CONTROL_CHECKSUM, item);
        put_check_bytes(dst, sum);
        put_u8(dst, FLAG);
        assert(buffered(*dst) =~= before + old(self).framed(item@));
        self.need_flag_sequence = false;
        Ok(())
    }
}

impl Default for HdlcFramer {
    fn default() -> (r: Self)
        ensures
            r.needs_flag(),
    {
        Self::new()
    }
}

/// The magic number in the second field of the transport header.
pub const MAGIC: u16 = 0x5050;

/// The two bytes of a header field, the high one first.
pub open spec fn field(value: int) -> Seq<u8> {
    seq![((value / 256) % 256) as u8, (value % 256) as u8]
}

/// The value of the header field at `at`.
pub open spec fn field_at(src: Seq<u8>, at: int) -> int {
    src[at] * 256 + src[at + 1]
}

/// Total length, magic number and payload length; lengths count modulo 65536.
pub open spec fn forti_header(len: int) -> Seq<u8> {
    field(len + 6) + field(MAGIC as int) + field(len)
}

/// How an HTTP status line starts.
pub open spec fn http_prefix() -> Seq<u8> {
    seq![0x48u8, 0x54u8, 0x54u8, 0x50u8, 0x2fu8, 0x31u8]
}

/// What stands at the front of a Fortinet transport stream.
pub open spec fn forti_front(src: Seq<u8>) -> Front {
    let total = field_at(src, 0);
    if src.len() < 6 {
        Front::Incomplete
    } else if src.take(6) == http_prefix() {
        Front::Invalid { error: FrameError::HttpResponse, used: 0 }
    } else if field_at(src, 2) != MAGIC || total < 7 || total - 6 != field_at(src, 4) {
        Front::Invalid { error: FrameError::InvalidHeader, used: 0 }
    } else if src.len() < total {
        Front::Incomplete
    } else {
        Front::Frame { payload: src.subrange(6, total), used: total }
    }
}

/// 6-byte header: `[u16 total_len][u16 0x5050][u16 payload_len]` then payload.
pub struct FortiFramer;

/// The header field at `at`.
fn read_field(src: &[u8], at: usize) -> (r: usize)
    requires
        at + 2 <= src@.len(),
    ensures
        r == field_at(src@, at as int),
        r < 65536,
{
    src[at] as usize * 256 + src[at + 1] as usize
}

/// Append the header field of `value`.
fn put_field(dst: &mut BytesMut, value: usize)
    requires
        buffered(*old(dst)).len() + 2 <= isize::MAX,
    ensures
        buffered(*final(dst)) == buffered(*old(dst)) + field(value as int),
{
    let low: u16 = (value % 65536) as u16;
    put_u16(dst, low);
    assert(low as int / 256 == (value as int / 256) % 256 && low as int % 256 == value as int
        % 256);
    assert(buffered(*dst) =~= buffered(*old(dst)) + field(value as int));
}

impl Framer for FortiFramer {
    open spec fn front(&self, src: Seq<u8>) -> Front {
        forti_front(src)
    }

    open spec fn framed(&self, item: Seq<u8>) -> Seq<u8> {
        forti_header(item.len() as int) + item
    }

    open spec fn encoded_once(&self) -> Self {
        *self
    }

    proof fn front_is_bounded(&self, src: Seq<u8>) {
    }

    proof fn front_is_stable(&self, src: Seq<u8>, more: Seq<u8>) {
        let all = src + more;
        assert(all.take(6) =~= src.take(6));
        assert(field_at(all, 0) == field_at(src, 0));
        if 6 <= field_at(src, 0) <= src.len() {
            assert(all.subrange(6, field_at(src, 0)) =~= src.subrange(6, field_at(src, 0)));
        }
    }

    proof fn front_survives_encoding(&self, src: Seq<u8>) {
    }

    fn decode(&mut self, src: &mut BytesMut) -> (r: Result<Option<BytesMut>, FrameError>) {
        let ghost whole = buffered(*src);
        assert(whole.skip(0) =~= whole);
        if src.len() < 6 {
            return Ok(None);
        }
        let bytes = as_slice(src);
        let total_len: usize = read_field(bytes, 0);
        let magic: usize = read_field(bytes, 2);
        let size: usize = read_field(bytes, 4);
        let http: bool = bytes[0] == 0x48 && bytes[1] == 0x54 && bytes[2] == 0x54 && bytes[3] == 0x50
            && bytes[4] == 0x2f && bytes[5] == 0x31;
        proof {
            if http {
                assert(whole.take(6) =~= http_prefix());
            }
            if whole.take(6) == http_prefix() {
                assert(forall|i: int| 0 <= i < 6 ==> whole[i] == #[trigger] http_prefix()[i]);
                assert(http_prefix()[0] == whole[0] && http_prefix()[1] == whole[1] && http_prefix()[2]
                    == whole[2] && http_prefix()[3] == whole[3] && http_prefix()[4] == whole[4]
                    && http_prefix()[5] == whole[5]);
            }
        }
        if http {
            return Err(FrameError::HttpResponse);
        }
        if magic != MAGIC as usize || total_len < 7 || total_len - 6 != size {
            return Err(FrameError::InvalidHeader);
        }
        if src.len() < total_len {
            return Ok(None);
        }
        let mut pkt = src.split_to(total_len);
        advance(&mut pkt, 6);
        assert(buffered(pkt) =~= whole.subrange(6, total_len as int));
        Ok(Some(pkt))
    }

    fn encode(&mut self, item: &[u8], dst: &mut BytesMut) -> (r: Result<(), FrameError>) {
        let ghost before = buffered(*dst);
        let len: usize = item.len();
        let total_len: usize = len + 6;
        dst.reserve(total_len);
        put_field(dst, total_len);
        put_field(dst, MAGIC as usize);
        put_field(dst, len);
        put_slice(dst, item);
        assert(buffered(*dst) =~= before + self.framed(item@));
        Ok(())
    }
}

} // verus!

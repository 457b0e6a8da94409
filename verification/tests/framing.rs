// SPDX-License-Identifier: GPL-3.0-or-later
//! Framing: checksums, HDLC, the Fortinet transport header, and the pump.

use bytes::BytesMut;
use crosswire::framer::{FrameError, Framer};
use crosswire::io::{Pump, READ_CHUNK};
use crosswire::transport::fcs::{frame_checksum_16bit, ADDRESS_CONTROL_CHECKSUM, FCS_TAB};
use crosswire::transport::framing::{FortiFramer, HdlcFramer};

#[test]
fn test_checksum() {
    let packet = [0xc0, 0x21, 0x01, 0x01, 0x00, 0x04];
    let mut checksum = ADDRESS_CONTROL_CHECKSUM;
    checksum = frame_checksum_16bit(checksum, &packet);
    checksum ^= 0xffff;
    assert_eq!(checksum, 0xb5d1);
}

#[test]
fn checksum_of_address_and_control() {
    assert_eq!(frame_checksum_16bit(0xffff, &[0xff, 0x03]), ADDRESS_CONTROL_CHECKSUM);
    assert_eq!(FCS_TAB[1], 0x1189);
    assert_eq!(FCS_TAB[255], 0x0f78);
}

#[test]
fn checksum_residue_of_a_checked_packet() {
    let packet = [0x80u8, 0x21, 0x01, 0x01];
    let sum = frame_checksum_16bit(0xffff, &packet) ^ 0xffff;
    let mut whole = packet.to_vec();
    whole.push((sum & 0xff) as u8);
    whole.push((sum >> 8) as u8);
    assert_eq!(frame_checksum_16bit(0xffff, &whole), 0xf0b8);
}

#[test]
fn test_hdlc_encode_decode() {
    let mut encoder = HdlcFramer::new();
    let mut decoder = HdlcFramer::new();

    let payload = [0xc0u8, 0x21, 0x01, 0x01, 0x00, 0x04];
    let mut encoded = BytesMut::new();
    encoder.encode(&payload, &mut encoded).unwrap();

    let mut buf = encoded.clone();
    let decoded = decoder.decode(&mut buf).unwrap().unwrap();

    assert_eq!(&decoded[..], &payload[..]);
}

#[test]
fn test_hdlc_roundtrip_with_escapes() {
    let mut encoder = HdlcFramer::new();
    let mut decoder = HdlcFramer::new();

    let payload = [0x7eu8, 0x7d, 0x00, 0x11, 0x1f, 0xff, 0x03, 0x80];
    let mut encoded = BytesMut::new();
    encoder.encode(&payload, &mut encoded).unwrap();

    // Escaped bytes must not appear raw between the flags.
    assert!(encoded.windows(1).filter(|w| w[0] == 0x7e).count() >= 2);

    let mut buf = encoded.clone();
    let decoded = decoder.decode(&mut buf).unwrap().unwrap();
    assert_eq!(&decoded[..], &payload[..]);
}

#[test]
fn test_hdlc_partial_frame_yields_none() {
    let mut decoder = HdlcFramer::new();
    // A lone opening flag with no closing flag is incomplete.
    let mut buf = BytesMut::from(&[0x7eu8, 0xff, 0x7d, 0x23, 0x01][..]);
    assert!(decoder.decode(&mut buf).unwrap().is_none());
}

#[test]
fn hdlc_frame_bytes_are_exact() {
    let mut framer = HdlcFramer::default();
    let mut out = BytesMut::new();
    framer.encode(&[0xc0, 0x21, 0x01, 0x01, 0x00, 0x04], &mut out).unwrap();
    let expected = [
        0x7eu8, 0xff, 0x7d, 0x23, 0xc0, 0x21, 0x7d, 0x21, 0x7d, 0x21, 0x7d, 0x20, 0x7d, 0x24, 0xd1,
        0xb5, 0x7e,
    ];
    assert_eq!(&out[..], &expected[..]);
    // A second frame shares the flag that closed the first.
    let before = out.len();
    framer.encode(&[0xc0], &mut out).unwrap();
    assert_eq!(out[before], 0xff);
}

#[test]
fn hdlc_stream_keeps_order_and_the_last_flag() {
    let mut encoder = HdlcFramer::new();
    let mut decoder = HdlcFramer::new();
    let items: [&[u8]; 3] = [&[1, 2, 3], &[0x7e], &[]];
    let mut stream = BytesMut::new();
    for item in items {
        encoder.encode(item, &mut stream).unwrap();
    }
    for item in items {
        assert_eq!(&decoder.decode(&mut stream).unwrap().unwrap()[..], item);
    }
    assert!(decoder.decode(&mut stream).unwrap().is_none());
    assert_eq!(&stream[..], &[0x7e]);
}

#[test]
fn hdlc_errors_consume_the_frame() {
    let mut decoder = HdlcFramer::new();
    let mut double = BytesMut::from(&[0x7eu8, 0x7d, 0x7d, 0x41, 0x7e][..]);
    assert_eq!(decoder.decode(&mut double), Err(FrameError::DoubleEscape));
    assert_eq!(&double[..], &[0x7e]);

    let mut cut = BytesMut::from(&[0x7eu8, 0x41, 0x42, 0x7d, 0x7e][..]);
    assert_eq!(decoder.decode(&mut cut), Err(FrameError::Truncated));
    let mut short = BytesMut::from(&[0x7eu8, 0x41, 0x7e][..]);
    assert_eq!(decoder.decode(&mut short), Err(FrameError::Truncated));

    let mut bad = BytesMut::from(&[0x7eu8, 0x41, 0x42, 0x43, 0x7e][..]);
    assert_eq!(decoder.decode(&mut bad), Err(FrameError::BadChecksum));
}

#[test]
fn hdlc_drops_bare_control_characters_and_leading_noise() {
    let mut encoder = HdlcFramer::new();
    let mut decoder = HdlcFramer::new();
    let mut out = BytesMut::new();
    encoder.encode(&[0x41, 0x42], &mut out).unwrap();
    let mut noisy = BytesMut::from(&[0x55u8, 0x66, 0x7e, 0x7e][..]);
    noisy.extend_from_slice(&out[..5]);
    noisy.extend_from_slice(&[0x11, 0x13]);
    noisy.extend_from_slice(&out[5..]);
    assert_eq!(&decoder.decode(&mut noisy).unwrap().unwrap()[..], &[0x41, 0x42]);
}

#[test]
fn test_forti_encode_decode() {
    let mut f = FortiFramer;
    let payload = [0x21u8, 0x45, 0x00, 0x00];
    let mut encoded = BytesMut::new();
    f.encode(&payload, &mut encoded).unwrap();
    assert_eq!(&encoded[..6], &[0x00, 0x0a, 0x50, 0x50, 0x00, 0x04]);

    let mut buf = encoded.clone();
    let decoded = f.decode(&mut buf).unwrap().unwrap();
    assert_eq!(&decoded[..], &payload[..]);
    assert!(buf.is_empty());
}

#[test]
fn test_forti_partial_header_yields_none() {
    let mut f = FortiFramer;
    let mut buf = BytesMut::from(&[0x00u8, 0x0a, 0x50][..]); // < 6 bytes
    assert!(f.decode(&mut buf).unwrap().is_none());
}

#[test]
fn test_forti_rejects_http_response() {
    let mut f = FortiFramer;
    let mut buf = BytesMut::from(&b"HTTP/1.1 401 Unauthorized\r\n\r\n"[..]);
    assert!(f.decode(&mut buf).is_err());
}

#[test]
fn test_forti_two_frames_in_buffer() {
    let mut f = FortiFramer;
    let mut buf = BytesMut::new();
    f.encode(&[0xaa, 0xbb], &mut buf).unwrap();
    f.encode(&[0xcc], &mut buf).unwrap();
    assert_eq!(&f.decode(&mut buf).unwrap().unwrap()[..], &[0xaa, 0xbb]);
    assert_eq!(&f.decode(&mut buf).unwrap().unwrap()[..], &[0xcc]);
    assert!(f.decode(&mut buf).unwrap().is_none());
}

#[test]
fn forti_errors_are_told_apart() {
    let mut f = FortiFramer;
    let mut http = BytesMut::from(&b"HTTP/1.1 403"[..]);
    assert_eq!(f.decode(&mut http), Err(FrameError::HttpResponse));
    assert_eq!(http.len(), 12);
    let mut magic = BytesMut::from(&[0x00u8, 0x07, 0x50, 0x51, 0x00, 0x01, 0xaa][..]);
    assert_eq!(f.decode(&mut magic), Err(FrameError::InvalidHeader));
    // An empty packet cannot be told from a broken header.
    let mut empty = BytesMut::new();
    f.encode(&[], &mut empty).unwrap();
    assert_eq!(f.decode(&mut empty), Err(FrameError::InvalidHeader));
    let mut partial = BytesMut::from(&[0x00u8, 0x09, 0x50, 0x50, 0x00, 0x03, 0xaa][..]);
    assert_eq!(f.decode(&mut partial), Ok(None));
}

#[test]
fn pump_reframes_and_does_not_mind_chunks() {
    let mut stream = BytesMut::new();
    let mut hdlc = HdlcFramer::new();
    hdlc.encode(&[0x21, 0x45], &mut stream).unwrap();
    hdlc.encode(&[0x7e, 0x01], &mut stream).unwrap();

    let mut whole = Pump::new(HdlcFramer::new(), FortiFramer);
    let (all, error) = whole.feed(&stream);
    assert_eq!(error, None);
    assert_eq!(all.len(), 2);
    assert_eq!(&all[0][..], &[0x00, 0x08, 0x50, 0x50, 0x00, 0x02, 0x21, 0x45]);
    assert_eq!(&all[1][..], &[0x00, 0x08, 0x50, 0x50, 0x00, 0x02, 0x7e, 0x01]);
    assert_eq!(whole.kept_len(), 1);

    let mut bytewise = Pump::new(HdlcFramer::new(), FortiFramer);
    let mut out: Vec<BytesMut> = Vec::new();
    for b in stream.iter() {
        let (mut frames, error) = bytewise.feed(&[*b]);
        assert_eq!(error, None);
        out.append(&mut frames);
    }
    assert_eq!(out, all);
    assert!(READ_CHUNK == 16384);
}

#[test]
fn pump_hands_out_what_precedes_an_error() {
    let mut stream = BytesMut::new();
    FortiFramer.encode(&[0x21], &mut stream).unwrap();
    stream.extend_from_slice(b"HTTP/1.1 400 Bad Request");
    let mut pump = Pump::new(FortiFramer, HdlcFramer::new());
    let (frames, error) = pump.feed(&stream);
    assert_eq!(frames.len(), 1);
    assert_eq!(frames[0][0], 0x7e);
    assert_eq!(error, Some(FrameError::HttpResponse));
}

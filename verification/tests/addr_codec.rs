use lite_tls::error::ParserError;
use lite_tls::mix_addr::MixAddrType;
use lite_tls::tls_relay_buffer::extract_len;
use lite_tls::utils::{transmute_u16s_to_u8s, CursoredBuffer, UdpRelayBuffer};

fn decode_all(bytes: &[u8]) -> (Result<MixAddrType, ParserError>, Vec<u8>) {
    let mut buf = UdpRelayBuffer::new();
    buf.extend_from_slice(bytes);
    let r = MixAddrType::from_encoded(&mut buf);
    let rest = buf.chunk().to_vec();
    (r, rest)
}

#[test]
fn v4_round_trip() {
    let addr = MixAddrType::V4(([127, 0, 0, 1], 8080));
    let mut buf = UdpRelayBuffer::new();
    addr.write_buf(&mut buf);
    assert_eq!(buf.chunk(), &[1, 127, 0, 0, 1, 0x1f, 0x90]);
    let (r, rest) = decode_all(buf.chunk());
    assert_eq!(r.unwrap(), MixAddrType::V4(([127, 0, 0, 1], 8080)));
    assert!(rest.is_empty());
}

#[test]
fn v6_round_trip() {
    let segs: [u16; 8] = [0x2001, 0x0db8, 0, 0, 0, 0xffff, 0x1234, 0x0001];
    let addr = MixAddrType::V6((segs, 443));
    let bytes = addr.encoded_bytes();
    assert_eq!(bytes.len(), 19);
    assert_eq!(bytes[0], 4);
    assert_eq!(&bytes[1..5], &[0x20, 0x01, 0x0d, 0xb8]);
    assert_eq!(&bytes[17..19], &[0x01, 0xbb]);
    let (r, rest) = decode_all(&bytes);
    assert_eq!(r.unwrap(), MixAddrType::V6((segs, 443)));
    assert!(rest.is_empty());
}

#[test]
fn hostname_round_trip_with_trailing_bytes() {
    let addr = MixAddrType::Hostname((b"example.com".to_vec(), 53));
    let mut bytes = addr.encoded_bytes();
    assert_eq!(bytes[0], 3);
    assert_eq!(bytes[1], 11);
    assert_eq!(&bytes[2..13], b"example.com");
    assert_eq!(&bytes[13..15], &[0, 53]);
    bytes.extend_from_slice(b"tail");
    let (r, rest) = decode_all(&bytes);
    assert_eq!(r.unwrap(), MixAddrType::Hostname((b"example.com".to_vec(), 53)));
    assert_eq!(rest, b"tail".to_vec());
}

#[test]
fn encoded_len_matches() {
    assert_eq!(MixAddrType::V4(([1, 2, 3, 4], 1)).encoded_len(), 7);
    assert_eq!(MixAddrType::V6(([0; 8], 1)).encoded_len(), 19);
    assert_eq!(MixAddrType::Hostname((b"ab".to_vec(), 1)).encoded_len(), 6);
}

#[test]
fn decode_empty_is_incomplete() {
    let (r, _) = decode_all(&[]);
    assert_eq!(r.unwrap_err(), ParserError::Incomplete);
}

#[test]
fn decode_short_v4_is_incomplete() {
    let (r, _) = decode_all(&[1, 127, 0, 0]);
    assert_eq!(r.unwrap_err(), ParserError::Incomplete);
}

#[test]
fn decode_unknown_tag_is_invalid() {
    let (r, _) = decode_all(&[2, 0, 0, 0, 0, 0, 0]);
    assert_eq!(r.unwrap_err(), ParserError::Invalid);
}

#[test]
fn decode_empty_hostname_is_invalid() {
    let (r, _) = decode_all(&[3, 0, 0, 80]);
    assert_eq!(r.unwrap_err(), ParserError::Invalid);
}

#[test]
fn decode_failure_consumes_nothing() {
    let mut buf = UdpRelayBuffer::new();
    buf.extend_from_slice(&[3, 5, b'a', b'b']);
    let before = buf.chunk().to_vec();
    let r = MixAddrType::from_encoded(&mut buf);
    assert_eq!(r.unwrap_err(), ParserError::Incomplete);
    assert_eq!(buf.chunk(), &before[..]);
}

#[test]
fn null_address() {
    let a = MixAddrType::new_null();
    assert!(a.is_none());
    assert!(!MixAddrType::V4(([0; 4], 0)).is_none());
}

#[test]
fn udp_relay_buffer_cursor_ops() {
    let mut buf = UdpRelayBuffer::new();
    assert!(buf.is_empty());
    buf.extend_from_slice(b"abcdef");
    assert_eq!(buf.len(), 6);
    assert_eq!(buf.remaining(), 6);
    buf.advance(2);
    assert_eq!(buf.chunk(), b"cdef");
    assert_eq!(buf.len(), 6);
    buf.compact();
    assert_eq!(buf.len(), 4);
    assert_eq!(buf.chunk(), b"cdef");
    assert!(buf.has_remaining());
    buf.reset();
    assert!(buf.is_empty());
    assert!(!buf.has_remaining());
}

#[test]
fn cursored_buffer_trait_view() {
    let mut buf = UdpRelayBuffer::new();
    buf.extend_from_slice(b"xyz");
    assert_eq!(buf.as_bytes(), b"xyz");
    CursoredBuffer::advance(&mut buf, 1);
    assert_eq!(buf.as_bytes(), b"yz");
}

#[test]
fn extract_len_is_big_endian() {
    assert_eq!(extract_len(&[0x01, 0x02]), 258);
    assert_eq!(extract_len(&[0x00, 0x00, 0xff]), 0);
    assert_eq!(extract_len(&[0xff, 0xff]), 65535);
}

#[test]
fn transmute_u16s_overlapping_layout() {
    let a: [u16; 2] = [0x1234, 0xabcd];
    let mut b = vec![0u8; 4];
    transmute_u16s_to_u8s(&a, &mut b);
    assert_eq!(b, vec![0x12, 0xab, 0xcd, 0x00]);
}

#[test]
fn transmute_u16s_short_target_untouched() {
    let a: [u16; 2] = [0x1234, 0xabcd];
    let mut b = vec![9u8; 3];
    transmute_u16s_to_u8s(&a, &mut b);
    assert_eq!(b, vec![9, 9, 9]);
}

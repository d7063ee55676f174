use lite_tls::client_udp_stream::{
    socks5_parse_datagram, ClientAddrLatch, PeerCheck, Socks5UdpSpecifiedBuffer,
};
use lite_tls::copy_udp::CopyUdpState;
use lite_tls::error::ParserError;
use lite_tls::mix_addr::MixAddrType;
use lite_tls::server_udp_stream::{ResolveAddr, SendStep, ServerUdpSendState, SocketAddrRepr};
use lite_tls::trojan_udp_stream::TrojanUdpStream;
use lite_tls::utils::UdpRelayBuffer;

#[test]
fn trojan_frame_layout() {
    let addr = MixAddrType::Hostname((b"example.com".to_vec(), 53));
    let mut stream: TrojanUdpStream<()> = TrojanUdpStream::new((), None);
    stream.prepare_send(b"ping", &addr);
    let mut expected = vec![3u8, 11];
    expected.extend_from_slice(b"example.com");
    expected.extend_from_slice(&[0, 53]);  // port
    expected.extend_from_slice(&[0, 4]);  // length
    expected.extend_from_slice(&[13, 10]);  // CRLF
    expected.extend_from_slice(b"ping");
    assert_eq!(stream.send_chunk(), &expected[..]);
}

#[test]
fn trojan_udp_round_trip() {
    let addr = MixAddrType::Hostname((b"example.com".to_vec(), 53));
    let mut writer: TrojanUdpStream<()> = TrojanUdpStream::new((), None);
    writer.prepare_send(b"ping", &addr);
    let frame = writer.send_chunk().to_vec();
    let sent = writer.note_sent(frame.len());
    // the reported count is the user payload, not the framed length
    assert_eq!(sent, Some(4));

    let mut reader: TrojanUdpStream<()> = TrojanUdpStream::new((), None);
    let mut state = CopyUdpState::new();
    let got = reader.handle_read(&frame, state.buffer_mut()).unwrap().unwrap();
    assert_eq!(got, MixAddrType::Hostname((b"example.com".to_vec(), 53)));
    assert_eq!(state.buffer_mut().chunk(), b"ping");

    assert!(!state.on_read(Some(got)));
    assert!(state.has_addr());
    state.on_written(4);
    assert!(!state.has_addr());
    assert_eq!(state.amt(), 4);
}

#[test]
fn trojan_udp_eof_yields_null_address() {
    let mut reader: TrojanUdpStream<()> = TrojanUdpStream::new((), None);
    let mut outer = UdpRelayBuffer::new();
    let addr = reader.handle_read(&[], &mut outer).unwrap().unwrap();
    assert!(addr.is_none());
    assert_eq!(outer.len(), 0);
}

#[test]
fn trojan_udp_partial_frame_is_pending() {
    let addr = MixAddrType::V4(([10, 0, 0, 1], 9000));
    let mut writer: TrojanUdpStream<()> = TrojanUdpStream::new((), None);
    writer.prepare_send(b"abcde", &addr);
    let frame = writer.send_chunk().to_vec();

    let mut reader: TrojanUdpStream<()> = TrojanUdpStream::new((), None);
    let mut outer = UdpRelayBuffer::new();
    // everything but the last payload byte: still pending
    let r = reader.handle_read(&frame[..frame.len() - 1], &mut outer).unwrap();
    assert!(r.is_none());
    assert_eq!(outer.len(), 0);
    // the last byte completes the datagram
    let got = reader.handle_read(&frame[frame.len() - 1..], &mut outer).unwrap().unwrap();
    assert_eq!(got, MixAddrType::V4(([10, 0, 0, 1], 9000)));
    assert_eq!(outer.chunk(), b"abcde");
}

#[test]
fn trojan_udp_bad_address_tag_is_error() {
    let mut reader: TrojanUdpStream<()> = TrojanUdpStream::new((), None);
    let mut outer = UdpRelayBuffer::new();
    let r = reader.handle_read(&[9, 9, 9, 9, 9, 9, 9, 9], &mut outer);
    assert_eq!(r.unwrap_err(), ParserError::Invalid);
}

#[test]
fn trojan_udp_partial_write_recovery() {
    let addr = MixAddrType::V4(([1, 2, 3, 4], 80));
    let mut writer: TrojanUdpStream<()> = TrojanUdpStream::new((), None);
    writer.prepare_send(b"data", &addr);
    let total = writer.send_chunk().len();
    assert!(writer.note_sent(3).is_none());
    assert_eq!(writer.send_chunk().len(), total - 3);
    // while the frame is pending, new payloads are not accepted
    writer.prepare_send(b"other", &addr);
    assert_eq!(writer.send_chunk().len(), total - 3);
    assert_eq!(writer.note_sent(total - 3), Some(4));
    assert_eq!(writer.send_chunk().len(), 0);
}

#[test]
fn trojan_udp_zero_write_reports_dead_peer() {
    let addr = MixAddrType::V4(([1, 2, 3, 4], 80));
    let mut writer: TrojanUdpStream<()> = TrojanUdpStream::new((), None);
    writer.prepare_send(b"x", &addr);
    assert_eq!(writer.note_sent(0), Some(0));
}

#[test]
fn trojan_udp_buffered_request_handed_out_once() {
    let mut stream: TrojanUdpStream<()> = TrojanUdpStream::new((), Some((0, b"head".to_vec())));
    assert_eq!(stream.take_buffered(), Some((0, b"head".to_vec())));
    assert_eq!(stream.take_buffered(), None);
}

#[test]
fn socks5_second_client_rejected() {
    let mut latch = ClientAddrLatch::new();
    // peer A sends; its address is latched
    assert_eq!(latch.on_datagram(0x7f000001, 4000), PeerCheck::First);
    assert_eq!(latch.on_datagram(0x7f000001, 4000), PeerCheck::Same);
    // peer B is a different client: rejected
    assert_eq!(latch.on_datagram(0x7f000001, 4001), PeerCheck::Different);
    assert_eq!(latch.on_datagram(0x0a000001, 4000), PeerCheck::Different);
}

#[test]
fn socks5_datagram_parse() {
    let mut data = vec![0u8, 0, 0];  // RSV | FRAG
    data.extend_from_slice(&[1, 8, 8, 8, 8, 0, 53]);  // ATYP V4 | addr | port
    data.extend_from_slice(b"query");
    let mut buf = UdpRelayBuffer::new();
    let addr = socks5_parse_datagram(&mut buf, &data).unwrap();
    assert_eq!(addr, MixAddrType::V4(([8, 8, 8, 8], 53)));
    assert_eq!(buf.chunk(), b"query");
}

#[test]
fn socks5_datagram_with_v6_destination() {
    let mut data = vec![0u8, 0, 0, 4];
    data.extend_from_slice(&[0x20, 0x01, 0x0d, 0xb8, 0, 0, 0, 0, 0, 0, 0, 0, 0, 0, 0, 1]);
    data.extend_from_slice(&[0x01, 0xbb]);  // port 443
    data.extend_from_slice(b"x");
    let mut buf = UdpRelayBuffer::new();
    let addr = socks5_parse_datagram(&mut buf, &data).unwrap();
    assert_eq!(
        addr,
        MixAddrType::V6(([0x2001, 0x0db8, 0, 0, 0, 0, 0, 1], 443))
    );
    assert_eq!(buf.chunk(), b"x");
}

#[test]
fn socks5_tiny_datagram_is_eof() {
    let mut buf = UdpRelayBuffer::new();
    let addr = socks5_parse_datagram(&mut buf, &[0, 0]).unwrap();
    assert!(addr.is_none());
    assert_eq!(buf.len(), 0);
}

#[test]
fn socks5_bad_destination_is_error() {
    let mut buf = UdpRelayBuffer::new();
    let r = socks5_parse_datagram(&mut buf, &[0, 0, 0, 7, 1, 2, 3, 4, 5, 6]);
    assert_eq!(r.unwrap_err(), ParserError::Invalid);
}

#[test]
fn socks5_reply_buffer_framing() {
    let mut buf = Socks5UdpSpecifiedBuffer::new(2048);
    assert!(buf.is_empty());
    assert_eq!(buf.as_bytes(), &[0, 0, 0]);

    let dst = MixAddrType::V4(([192, 168, 0, 9], 1080));
    assert!(buf.fill_if_empty(&dst, b"hi"));
    let mut expected = vec![0u8, 0, 0, 1, 192, 168, 0, 9, 4, 56];
    expected.extend_from_slice(b"hi");
    assert_eq!(buf.as_bytes(), &expected[..]);

    // a pending frame refuses new data
    assert!(!buf.fill_if_empty(&dst, b"other"));
    assert_eq!(buf.as_bytes(), &expected[..]);

    // only a complete send frees the buffer
    assert!(!buf.note_sent(3));
    assert!(buf.note_sent(expected.len()));
    assert!(buf.is_empty());
}

#[test]
fn server_udp_literal_destination() {
    let mut st = ServerUdpSendState::new();
    assert!(st.is_idle());
    let step = st.begin(&MixAddrType::V4(([9, 9, 9, 9], 53)));
    match step {
        SendStep::SendTo(SocketAddrRepr::V4(ip, port)) => {
            assert_eq!(ip, [9, 9, 9, 9]);
            assert_eq!(port, 53);
        },
        _ => panic!("expected an immediate send"),
    }
    match st.ready_addr() {
        SocketAddrRepr::V4(ip, _) => assert_eq!(ip, [9, 9, 9, 9]),
        _ => panic!("wrong family"),
    }
    st.sent();
    assert!(st.is_idle());
}

#[test]
fn server_udp_hostname_lookup_flow() {
    let mut st = ServerUdpSendState::new();
    let step = st.begin(&MixAddrType::Hostname((b"example.com".to_vec(), 443)));
    match step {
        SendStep::Lookup(name, port) => {
            assert_eq!(name, b"example.com".to_vec());
            assert_eq!(port, 443);
        },
        _ => panic!("expected a lookup"),
    }
    assert!(st.is_pending());
    assert!(!st.lookup_done(Some(SocketAddrRepr::V4([93, 184, 216, 34], 443))));
    match st.ready_addr() {
        SocketAddrRepr::V4(ip, port) => {
            assert_eq!(ip, [93, 184, 216, 34]);
            assert_eq!(port, 443);
        },
        _ => panic!("wrong family"),
    }
    st.sent();

    // an empty lookup result drops the datagram
    let mut st2 = ServerUdpSendState::new();
    match st2.begin(&MixAddrType::Hostname((b"nowhere.invalid".to_vec(), 1))) {
        SendStep::Lookup(_, _) => {},
        _ => panic!("expected a lookup"),
    }
    assert!(st2.lookup_done(None));
    assert!(st2.is_idle());
}

#[test]
fn server_udp_resolve_states_are_distinct() {
    let st = ServerUdpSendState::new();
    assert!(st.is_idle());
    assert!(!st.is_pending());
    let _ = ResolveAddr::Idle;  // states are part of the public vocabulary
}

#[test]
fn copy_udp_eof_finishes_with_count() {
    let mut state = CopyUdpState::new();
    assert_eq!(state.amt(), 0);
    state.buffer_mut().extend_from_slice(b"abc");
    assert!(!state.on_read(Some(MixAddrType::V4(([1, 1, 1, 1], 1)))));
    state.on_written(2);
    assert_eq!(state.amt(), 2);
    assert!(state.has_addr());
    state.on_written(1);
    assert!(!state.has_addr());
    assert_eq!(state.amt(), 3);
    // only an explicit end-of-stream report ends the pump
    assert!(state.on_read(None));
    assert_eq!(state.amt(), 3);
}

#[test]
fn copy_udp_null_address_is_not_eof() {
    // a receive path that surfaces no source address hands the pump
    // the null placeholder; the datagram is still relayed
    let mut state = CopyUdpState::new();
    state.buffer_mut().extend_from_slice(b"reply");
    assert!(!state.on_read(Some(MixAddrType::new_null())));
    assert!(state.has_addr());
    assert!(state.addr_ref().is_none());
    state.on_written(5);
    assert_eq!(state.amt(), 5);
    assert!(!state.has_addr());
}

#[test]
fn copy_udp_addr_kept_until_datagram_done() {
    let mut state = CopyUdpState::new();
    state.buffer_mut().extend_from_slice(b"abcd");
    let addr = MixAddrType::Hostname((b"h".to_vec(), 1));
    assert!(!state.on_read(Some(addr)));
    state.on_written(1);
    assert_eq!(state.addr_ref(), &MixAddrType::Hostname((b"h".to_vec(), 1)));
    state.on_written(3);
    assert!(!state.has_addr());
}

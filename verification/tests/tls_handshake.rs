use lite_tls::error::ParserError;
use lite_tls::lite_tls_stream::{HandshakeDecision, LiteTlsStream};
use lite_tls::protocol::leave_tls_command;
use lite_tls::tls_relay_buffer::{Direction, Seen0x17, TlsRelayBuffer};

fn record(ty: u8, payload: &[u8]) -> Vec<u8> {
    let mut v = vec![ty, 0x03, 0x03];
    v.push((payload.len() / 256) as u8);
    v.push((payload.len() % 256) as u8);
    v.extend_from_slice(payload);
    v
}

#[test]
fn client_hello_short_is_incomplete() {
    let mut buf = TlsRelayBuffer::new();
    buf.extend_from_slice(&[0x16, 0x03, 0x01]);
    assert_eq!(buf.check_client_hello().unwrap_err(), ParserError::Incomplete);
}

#[test]
fn client_hello_trailing_bytes_is_invalid() {
    let mut buf = TlsRelayBuffer::new();
    // one whole record announcing a 1-byte payload, plus an extra byte
    buf.extend_from_slice(&[0x16, 0x03, 0x01, 0x00, 0x01, 0xaa, 0xbb]);
    assert_eq!(buf.check_client_hello().unwrap_err(), ParserError::Invalid);
}

#[test]
fn client_hello_wrong_prefix_is_invalid() {
    let mut buf = TlsRelayBuffer::new();
    buf.extend_from_slice(b"GET / HTTP/1.1\r\n\r\n");
    assert_eq!(buf.check_client_hello().unwrap_err(), ParserError::Invalid);
}

#[test]
fn client_hello_exact_record_is_ok() {
    let mut buf = TlsRelayBuffer::new();
    buf.extend_from_slice(&[0x16, 0x03, 0x01, 0x00, 0x03, 1, 2, 3]);
    assert!(buf.check_client_hello().is_ok());
    assert_eq!(buf.checked_packets(), &[0x16, 0x03, 0x01, 0x00, 0x03, 1, 2, 3]);
}

#[test]
fn checked_region_grows_per_complete_record() {
    let mut buf = TlsRelayBuffer::new();
    let r1 = record(0x16, &[1, 2]);
    let r2 = record(0x14, &[]);
    buf.extend_from_slice(&r1);
    buf.extend_from_slice(&r2);
    buf.extend_from_slice(&[0x17, 0x03, 0x03, 0x00]);  // partial third record
    assert_eq!(buf.check_tls_packet().unwrap(), 0x16);
    assert_eq!(buf.check_tls_packet().unwrap(), 0x14);
    assert_eq!(buf.check_tls_packet().unwrap_err(), ParserError::Incomplete);
    let mut expected = r1.clone();
    expected.extend_from_slice(&r2);
    assert_eq!(buf.checked_packets(), &expected[..]);
    buf.pop_checked_packets();
    assert_eq!(buf.checked_packets(), b"");
    assert_eq!(buf.len(), 4);
}

#[test]
fn take_checked_conserves_bytes() {
    let mut buf = TlsRelayBuffer::new();
    let r1 = record(0x16, &[9]);
    buf.extend_from_slice(&r1);
    buf.extend_from_slice(&[0x17, 0x03]);  // unparsed tail
    assert_eq!(buf.check_tls_packet().unwrap(), 0x16);
    let taken = buf.take_checked().unwrap();
    let rest = buf.take_all();
    let mut whole = taken.clone();
    whole.extend_from_slice(&rest);
    let mut before = r1.clone();
    before.extend_from_slice(&[0x17, 0x03]);
    assert_eq!(whole, before);
}

#[test]
fn seen_0x17_transitions() {
    let mut s = Seen0x17::Neither;
    s.witness(Direction::Inbound);
    assert_eq!(s, Seen0x17::FromInbound);
    s.witness(Direction::Inbound);
    assert_eq!(s, Seen0x17::FromInbound);
    s.witness(Direction::Outbound);
    assert_eq!(s, Seen0x17::BothDirections);
}

#[test]
fn seen_0x17_never_leaves_both_directions() {
    let mut s = Seen0x17::BothDirections;
    s.witness(Direction::Inbound);
    assert_eq!(s, Seen0x17::BothDirections);
    s.witness(Direction::Outbound);
    assert_eq!(s, Seen0x17::BothDirections);
}

#[test]
fn find_key_packets_rejects_unknown_type() {
    let mut ep = LiteTlsStream::new_client_endpoint();
    ep.feed(Direction::Inbound, &record(0x99, &[]));
    assert_eq!(ep.find_key_packets(Direction::Inbound).unwrap_err(), ParserError::Invalid);
}

#[test]
fn non_tls_stream_falls_back() {
    let mut ep = LiteTlsStream::new_server_endpoint();
    ep.feed(Direction::Inbound, b"GET / HTTP/1.1\r\n\r\n");
    assert_eq!(ep.check_client_hello().unwrap_err(), ParserError::Invalid);
    // the raw bytes are still all there for the plain-TLS fallback
    let (inbound, outbound) = ep.flush_take();
    assert_eq!(inbound, b"GET / HTTP/1.1\r\n\r\n".to_vec());
    assert!(outbound.is_empty());
}

#[test]
fn tls13_client_side_success() {
    let mut ep = LiteTlsStream::new_client_endpoint();

    // client hello arrives inbound and is relayed raw
    ep.feed(Direction::Inbound, &[0x16, 0x03, 0x01, 0x00, 0x01, 0x2a]);
    assert!(ep.check_client_hello().is_ok());
    let hello = ep.take_all(Direction::Inbound);
    assert_eq!(hello, vec![0x16, 0x03, 0x01, 0x00, 0x01, 0x2a]);

    // the peer answers with handshake records, then application data
    let mut burst = record(0x16, &[0; 10]);
    burst.extend_from_slice(&record(0x17, &[1, 2, 3]));
    ep.feed(Direction::Outbound, &burst);
    assert_eq!(ep.find_key_packets(Direction::Outbound).unwrap(), HandshakeDecision::RelayPending);
    let relayed = ep.take_checked(Direction::Outbound).unwrap();
    assert_eq!(relayed, burst);

    // the second change-cipher-spec is the leave beacon
    ep.feed(Direction::Outbound, &[0x14, 0x03, 0x03, 0x00, 0x01, 0x01]);
    assert_eq!(ep.find_key_packets(Direction::Outbound).unwrap(), HandshakeDecision::HandshakeTls13);
    assert!(ep.tls13_client_finish().is_ok());

    // nothing is left buffered on the peer side
    let (inbound, outbound) = ep.flush_take();
    assert!(inbound.is_empty());
    assert!(outbound.is_empty());
}

#[test]
fn tls13_client_rejects_wrong_beacon() {
    let mut ep = LiteTlsStream::new_client_endpoint();
    ep.feed(Direction::Outbound, &record(0x16, &[0]));
    assert_eq!(ep.tls13_client_finish().unwrap_err(), ParserError::Invalid);
}

#[test]
fn tls13_server_side_beacon_and_desync() {
    let mut ep = LiteTlsStream::new_server_endpoint();
    let ccs = ep.tls13_server_finish().unwrap();
    assert_eq!(ccs, vec![0x14, 0x03, 0x03, 0x00, 0x01, 0x01]);

    let mut ep2 = LiteTlsStream::new_server_endpoint();
    ep2.feed(Direction::Inbound, &[0x17]);
    assert_eq!(ep2.tls13_server_finish().unwrap_err(), ParserError::Invalid);
}

#[test]
fn tls13_advance_record_retries_on_incomplete() {
    let mut ep = LiteTlsStream::new_server_endpoint();
    ep.feed(Direction::Inbound, &[0x14, 0x03, 0x03]);
    assert_eq!(ep.tls13_advance_record().unwrap_err(), ParserError::Incomplete);
    ep.feed(Direction::Inbound, &[0x00, 0x01, 0x01]);
    assert!(ep.tls13_advance_record().is_ok());
    let relayed = ep.take_checked(Direction::Inbound).unwrap();
    assert_eq!(relayed, vec![0x14, 0x03, 0x03, 0x00, 0x01, 0x01]);
}

#[test]
fn tls12_server_side_success() {
    let mut ep = LiteTlsStream::new_server_endpoint();

    // the target's answer flows outbound and is relayed
    let answer = record(0x17, &[7, 7]);
    ep.feed(Direction::Outbound, &answer);
    assert_eq!(ep.find_key_packets(Direction::Outbound).unwrap(), HandshakeDecision::RelayPending);
    assert_eq!(ep.take_checked(Direction::Outbound).unwrap(), answer);

    // the peer's leave-TLS command arrives inbound
    ep.feed(Direction::Inbound, &leave_tls_command());
    assert_eq!(
        ep.find_key_packets(Direction::Inbound).unwrap(),
        HandshakeDecision::HandshakeTls12Server
    );
    // the command doubles as the acknowledgement record
    assert!(ep.tls12_server_verify_ack().is_ok());

    let (inbound, outbound) = ep.flush_take();
    assert!(inbound.is_empty());
    assert!(outbound.is_empty());
}

#[test]
fn tls12_server_rejects_early_client_data() {
    let mut ep = LiteTlsStream::new_server_endpoint();
    // a client request shows up where the 0xff acknowledgement belongs
    ep.feed(Direction::Inbound, &record(0x17, &[1]));
    assert_eq!(ep.tls12_server_verify_ack().unwrap_err(), ParserError::Invalid);
}

#[test]
fn tls12_client_side_consumes_command() {
    let mut ep = LiteTlsStream::new_client_endpoint();
    // the first application data from the browser triggers TLS 1.2 handling
    ep.feed(Direction::Inbound, &record(0x17, &[9, 9, 9]));
    assert_eq!(
        ep.find_key_packets(Direction::Inbound).unwrap(),
        HandshakeDecision::HandshakeTls12Client
    );
    // the peer's 0xff command waits in the outbound buffer
    ep.feed(Direction::Outbound, &leave_tls_command());
    assert!(ep.tls12_client_consume_command().is_ok());
    let (inbound, outbound) = ep.flush_take();
    // the browser's request is still buffered, the command is gone
    assert_eq!(inbound, record(0x17, &[9, 9, 9]));
    assert!(outbound.is_empty());
}

#[test]
fn leave_tls_command_shape() {
    let cmd = leave_tls_command();
    assert_eq!(cmd, [0xff, 0x03, 0x03, 0x00, 0x00]);
}

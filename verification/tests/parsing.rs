use lite_tls::args::{
    arc_string, parse_addr, parse_connection_mode, parse_log_level, password_to_hash,
    ConnectionMode, LogLevel,
};
use lite_tls::error::ParserError;
use lite_tls::http::Target;
use lite_tls::protocol::{
    alpn_quic_http, leave_tls_command, ServiceMode, ECHO_PHRASE, HASH_LEN,
    LITE_TLS_HANDSHAKE_TIMEOUT, MAX_CONCURRENT_BIDI_STREAMS, MAX_IDLE_TIMEOUT,
};

#[test]
fn connect_request_parses_host_and_port() {
    let mut t = Target::new();
    let mut buf = b"CONNECT example.com:443 HTTP/1.1\r\n\r\n".to_vec();
    assert!(t.parse(&mut buf).is_ok());
    assert!(t.is_https());
    assert_eq!(t.host().as_slice(), b"example.com");
    assert_eq!(t.port(), 443);
}

#[test]
fn get_request_defaults_to_port_80() {
    let mut t = Target::new();
    let mut buf = b"GET http://example.com/index.html HTTP/1.1\r\n\r\n".to_vec();
    assert!(t.parse(&mut buf).is_ok());
    assert!(!t.is_https());
    assert_eq!(t.host().as_slice(), b"example.com");
    assert_eq!(t.port(), 80);
}

#[test]
fn get_request_with_explicit_port() {
    let mut t = Target::new();
    let mut buf = b"GET http://example.com:8080/x HTTP/1.1\r\n\r\n".to_vec();
    assert!(t.parse(&mut buf).is_ok());
    assert_eq!(t.host().as_slice(), b"example.com");
    assert_eq!(t.port(), 8080);
}

#[test]
fn unknown_method_is_invalid() {
    let mut t = Target::new();
    let mut buf = b"FOO bar HTTP/1.1\r\n\r\n".to_vec();
    assert_eq!(t.parse(&mut buf).unwrap_err(), ParserError::Invalid);
}

#[test]
fn connect_without_port_is_invalid() {
    let mut t = Target::new();
    let mut buf = b"CONNECT example.com HTTP/1.1\r\n\r\n".to_vec();
    assert_eq!(t.parse(&mut buf).unwrap_err(), ParserError::Invalid);
}

#[test]
fn empty_port_is_invalid() {
    let mut t = Target::new();
    let mut buf = b"GET example.com: HTTP/1.1\r\n\r\n".to_vec();
    assert_eq!(t.parse(&mut buf).unwrap_err(), ParserError::Invalid);
}

#[test]
fn huge_port_is_invalid() {
    let mut t = Target::new();
    let mut buf = b"CONNECT example.com:99999 HTTP/1.1\r\n\r\n".to_vec();
    assert_eq!(t.parse(&mut buf).unwrap_err(), ParserError::Invalid);
}

#[test]
fn parse_resumes_after_incomplete_headers() {
    let mut t = Target::new();
    let mut buf = b"CONNECT example.com:443 HTTP/1.1\r\n".to_vec();
    assert_eq!(t.parse(&mut buf).unwrap_err(), ParserError::Incomplete);
    // only the last four bytes are kept while waiting for the blank line
    assert_eq!(buf, b".1\r\n".to_vec());
    buf.extend_from_slice(b"\r\n");
    assert!(t.parse(&mut buf).is_ok());
    assert_eq!(t.host().as_slice(), b"example.com");
    assert_eq!(t.port(), 443);
}

#[test]
fn packet0_layout() {
    let mut t = Target::new();
    let mut buf = b"CONNECT host.test:443 HTTP/1.1\r\n\r\n".to_vec();
    assert!(t.parse(&mut buf).is_ok());
    let p0 = t.packet0(b"HASH");
    let mut expected = b"HASH".to_vec();
    expected.extend_from_slice(&[13, 10, 1, 0]);
    expected.extend_from_slice(b"host.test");
    expected.extend_from_slice(&[1, 187]);  // 443 big-endian
    expected.extend_from_slice(&[13, 10]);
    assert_eq!(p0, expected);
}

#[test]
fn rewritten_get_layout() {
    let mut t = Target::new();
    let mut buf = b"GET http://example.com/ HTTP/1.1\r\n\r\n".to_vec();
    assert!(t.parse(&mut buf).is_ok());
    let req = t.rewritten_get();
    let mut expected = b"GET / HTTP/1.1\r\nHost: ".to_vec();
    expected.extend_from_slice(b"example.com");
    expected.extend_from_slice(b"\r\nConnection: keep-alive\r\n\r\n");
    assert_eq!(req, expected);
}

#[test]
fn log_levels_parse_case_insensitively() {
    assert_eq!(parse_log_level("INFO"), LogLevel::Info);
    assert_eq!(parse_log_level("debug"), LogLevel::Debug);
    assert_eq!(parse_log_level("Warn"), LogLevel::Warn);
    assert_eq!(parse_log_level("error"), LogLevel::Error);
    assert_eq!(parse_log_level("TrAcE"), LogLevel::Trace);
    assert_eq!(parse_log_level("nonsense"), LogLevel::Info);
}

#[test]
fn connection_modes_parse() {
    assert_eq!(parse_connection_mode("tcp-tls"), ConnectionMode::TcpTLS);
    assert_eq!(parse_connection_mode("t"), ConnectionMode::TcpTLS);
    assert_eq!(parse_connection_mode("TCP"), ConnectionMode::TcpTLS);
    assert_eq!(parse_connection_mode("tcp_tls"), ConnectionMode::TcpTLS);
    assert_eq!(parse_connection_mode("quic"), ConnectionMode::Quic);
    assert_eq!(parse_connection_mode("q"), ConnectionMode::Quic);
    assert_eq!(parse_connection_mode("l"), ConnectionMode::LiteTLS);
    assert_eq!(parse_connection_mode("other"), ConnectionMode::Quic);
}

#[test]
fn parse_addr_prefixes_loopback() {
    assert_eq!(parse_addr("8888"), "127.0.0.1:8888".to_string());
}

#[test]
fn arc_string_keeps_contents() {
    let a = arc_string("hello");
    assert_eq!(a.as_str(), "hello");
}

#[test]
fn password_hash_is_sha224_hex() {
    // SHA-224 of the empty string
    let h = password_to_hash("");
    assert_eq!(h.as_str(), "d14a028c2a3a2bc9476102bb288234c415a2b01f828ea62ac5b3e42f");
    assert_eq!(h.len(), HASH_LEN);
    // SHA-224 of "abc"
    let h2 = password_to_hash("abc");
    assert_eq!(h2.as_str(), "23097d223405d8228642a477bda255b32aadbce4bda0b3f7e36c9da7");
}

#[test]
fn service_mode_codes() {
    assert_eq!(ServiceMode::TCP.get_code(), 0x01);
    assert_eq!(ServiceMode::UDP.get_code(), 0x03);
    assert_eq!(ServiceMode::MiniTLS.get_code(), 0x11);
}

#[test]
fn protocol_constants() {
    assert_eq!(HASH_LEN, 56);
    assert_eq!(LITE_TLS_HANDSHAKE_TIMEOUT, 10);
    assert_eq!(MAX_IDLE_TIMEOUT, 600);
    assert_eq!(MAX_CONCURRENT_BIDI_STREAMS, 30);
    assert_eq!(ECHO_PHRASE, "echo");
    assert_eq!(alpn_quic_http(), b"hq-29".to_vec());
    assert_eq!(leave_tls_command()[0], 0xff);
}

//! Core logic of a Trojan-style proxy with the Lite-TLS optimization:
//! TLS record inspection for the synchronized leave-TLS handshake,
//! SOCKS5-compatible address codec, and UDP relay framing.
//!
//! Everything here is pure byte/state logic; the thin asynchronous I/O
//! shell that feeds bytes in and writes bytes out lives outside this
//! library.

pub mod args;
pub mod client_udp_stream;
pub mod copy_udp;
pub mod error;
pub mod http;
pub mod lite_tls_stream;
pub mod mix_addr;
pub mod protocol;
pub mod server;
pub mod server_udp_stream;
pub mod tls_relay_buffer;
pub mod trojan_udp_stream;
pub mod utils;

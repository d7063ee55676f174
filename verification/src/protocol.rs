use vstd::prelude::*;

verus! {

/// Length of the hex-encoded SHA-224 password hash that opens every
/// Trojan connection.
pub const HASH_LEN: usize = 56;

/// Wall-clock bound, in seconds, on the whole Lite-TLS handshake.
pub const LITE_TLS_HANDSHAKE_TIMEOUT: u64 = 10;

/// Maximum idle time of a relayed connection, in seconds.
pub const MAX_IDLE_TIMEOUT: u64 = 600;

/// Bound on concurrently open bidirectional streams (QUIC transport).
pub const MAX_CONCURRENT_BIDI_STREAMS: usize = 30;

/// Phrase answered by the echo service.
pub const ECHO_PHRASE: &'static str = "echo";

/// The ALPN protocol name offered on the QUIC transport.
pub fn alpn_quic_http() -> (r: Vec<u8>)
    ensures
        r@ == "hq-29"@.map_values(|c: char| c as u8),
{
    let mut v: Vec<u8> = Vec::new();
    v.push(0x68);
    v.push(0x71);
    v.push(0x2d);
    v.push(0x32);
    v.push(0x39);
    proof {
        reveal_strlit("hq-29");
        assert(v@ =~= "hq-29"@.map_values(|c: char| c as u8));
    }
    v
}

/// The five-byte out-of-band record that tells the Trojan peer to leave
/// the TLS channel: a `0xFF` type byte (never a valid TLS record type),
/// a conventional `03 03` version pair, and a zero payload length.
pub fn leave_tls_command() -> (r: [u8; 5])
    ensures
        r@ == seq![0xffu8, 0x03u8, 0x03u8, 0x00u8, 0x00u8],
{
    let r: [u8; 5] = [0xff, 0x03, 0x03, 0x00, 0x00];
    proof {
        assert(r@ =~= seq![0xffu8, 0x03u8, 0x03u8, 0x00u8, 0x00u8]);
    }
    r
}

/// The service requested by a Trojan client in its first packet.
pub enum ServiceMode {
    TCP,
    UDP,
    MiniTLS,
}

impl ServiceMode {
    /// The command byte that encodes this service on the wire.
    pub fn get_code(&self) -> (r: u8)
        ensures
            *self is TCP ==> r == 0x01,
            *self is UDP ==> r == 0x03,
            *self is MiniTLS ==> r == 0x11,
    {
        match self {
            ServiceMode::TCP => 0x01,
            ServiceMode::UDP => 0x03,
            ServiceMode::MiniTLS => 0x11,
        }
    }
}

} // verus!

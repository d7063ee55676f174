use vstd::prelude::*;

use std::sync::Arc;
use vstd::string::StringSliceAdditionalSpecFns;

verus! {

/// Logging verbosity, as plain values (the logging backend outside
/// this library maps them to its own level type).
#[derive(Debug, Clone, Copy, PartialEq, Eq, Structural)]
pub enum LogLevel {
    Error,
    Warn,
    Info,
    Debug,
    Trace,
}

/// How the client reaches the proxy server.
#[derive(Debug, Clone, Copy, PartialEq, Eq, Structural)]
pub enum ConnectionMode {
    TcpTLS,
    Quic,
    LiteTLS,
}

/// ASCII lowercasing of one byte.
pub open spec fn spec_lower_byte(b: u8) -> u8 {
    if 65 <= b <= 90 {
        (b + 32) as u8
    } else {
        b
    }
}

/// ASCII lowercasing of a byte string.
pub open spec fn spec_lower(s: Seq<u8>) -> Seq<u8> {
    s.map_values(|b: u8| spec_lower_byte(b))
}

/// The log level a command-line word names, `Info` for anything
/// unknown.  The comparisons are against the ASCII bytes of the words
/// `info`, `debug`, `warn`, `error` and `trace`.
pub open spec fn spec_parse_log_level(s: Seq<u8>) -> LogLevel {
    let low = spec_lower(s);
    if low == seq![105u8, 110u8, 102u8, 111u8] {
        LogLevel::Info
    } else if low == seq![100u8, 101u8, 98u8, 117u8, 103u8] {
        LogLevel::Debug
    } else if low == seq![119u8, 97u8, 114u8, 110u8] {
        LogLevel::Warn
    } else if low == seq![101u8, 114u8, 114u8, 111u8, 114u8] {
        LogLevel::Error
    } else if low == seq![116u8, 114u8, 97u8, 99u8, 101u8] {
        LogLevel::Trace
    } else {
        LogLevel::Info
    }
}

/// The connection mode a command-line word names, `Quic` for anything
/// unknown.  The comparisons are against the ASCII bytes of `tcp-tls`,
/// `t`, `tcp`, `tcp_tls`, `quic`, `q` and `l`.
pub open spec fn spec_parse_connection_mode(s: Seq<u8>) -> ConnectionMode {
    let low = spec_lower(s);
    if low == seq![116u8, 99u8, 112u8, 45u8, 116u8, 108u8, 115u8] {
        ConnectionMode::TcpTLS
    } else if low == seq![116u8] {
        ConnectionMode::TcpTLS
    } else if low == seq![116u8, 99u8, 112u8] {
        ConnectionMode::TcpTLS
    } else if low == seq![116u8, 99u8, 112u8, 95u8, 116u8, 108u8, 115u8] {
        ConnectionMode::TcpTLS
    } else if low == seq![113u8, 117u8, 105u8, 99u8] {
        ConnectionMode::Quic
    } else if low == seq![113u8] {
        ConnectionMode::Quic
    } else if low == seq![108u8] {
        ConnectionMode::LiteTLS
    } else {
        ConnectionMode::Quic
    }
}

/// ASCII-lowercase a byte string.
fn lower_bytes(s: &[u8]) -> (r: Vec<u8>)
    ensures
        r@ == spec_lower(s@),
{
    let mut v: Vec<u8> = Vec::new();
    let mut i: usize = 0;
    while i < s.len()
        invariant
            i <= s@.len(),
            v@ == spec_lower(s@.take(i as int)),
        decreases s@.len() - i,
    {
        let b = s[i];
        let low = if 65 <= b && b <= 90 {
            b + 32
        } else {
            b
        };
        v.push(low);
        i = i + 1;
        proof {
            assert(v@ =~= spec_lower(s@.take(i as int)));
        }
    }
    proof {
        assert(v@ =~= spec_lower(s@));
    }
    v
}

/// Byte-string equality.
fn bytes_eq(a: &[u8], b: &[u8]) -> (r: bool)
    ensures
        r == (a@ == b@),
{
    if a.len() != b.len() {
        proof {
            assert(a@.len() != b@.len());
        }
        return false;
    }
    let mut i: usize = 0;
    while i < a.len()
        invariant
            i <= a@.len(),
            a@.len() == b@.len(),
            forall|j: int| 0 <= j < i ==> a@[j] == b@[j],
        decreases a@.len() - i,
    {
        if a[i] != b[i] {
            return false;
        }
        i = i + 1;
    }
    proof {
        assert(a@ =~= b@);
    }
    true
}

/// Map a command-line word, case-insensitively, to a [`LogLevel`].
pub fn parse_log_level(l: &str) -> (r: LogLevel)
    ensures
        r == spec_parse_log_level(l.spec_bytes()),
{
    let low = lower_bytes(l.as_bytes());
    let w_info: [u8; 4] = [105, 110, 102, 111];
    proof {
        assert(w_info@ =~= seq![105u8, 110u8, 102u8, 111u8]);
    }
    let w_debug: [u8; 5] = [100, 101, 98, 117, 103];
    proof {
        assert(w_debug@ =~= seq![100u8, 101u8, 98u8, 117u8, 103u8]);
    }
    let w_warn: [u8; 4] = [119, 97, 114, 110];
    proof {
        assert(w_warn@ =~= seq![119u8, 97u8, 114u8, 110u8]);
    }
    let w_error: [u8; 5] = [101, 114, 114, 111, 114];
    proof {
        assert(w_error@ =~= seq![101u8, 114u8, 114u8, 111u8, 114u8]);
    }
    let w_trace: [u8; 5] = [116, 114, 97, 99, 101];
    proof {
        assert(w_trace@ =~= seq![116u8, 114u8, 97u8, 99u8, 101u8]);
    }
    let ls = low.as_slice();
    if bytes_eq(ls, &w_info) {
        LogLevel::Info
    } else if bytes_eq(ls, &w_debug) {
        LogLevel::Debug
    } else if bytes_eq(ls, &w_warn) {
        LogLevel::Warn
    } else if bytes_eq(ls, &w_error) {
        LogLevel::Error
    } else if bytes_eq(ls, &w_trace) {
        LogLevel::Trace
    } else {
        LogLevel::Info
    }
}

/// Map a command-line word, case-insensitively, to a
/// [`ConnectionMode`].
pub fn parse_connection_mode(l: &str) -> (r: ConnectionMode)
    ensures
        r == spec_parse_connection_mode(l.spec_bytes()),
{
    let low = lower_bytes(l.as_bytes());
    let w_tcp_dash_tls: [u8; 7] = [116, 99, 112, 45, 116, 108, 115];
    proof {
        assert(w_tcp_dash_tls@ =~= seq![116u8, 99u8, 112u8, 45u8, 116u8, 108u8, 115u8]);
    }
    let w_t: [u8; 1] = [116];
    proof {
        assert(w_t@ =~= seq![116u8]);
    }
    let w_tcp: [u8; 3] = [116, 99, 112];
    proof {
        assert(w_tcp@ =~= seq![116u8, 99u8, 112u8]);
    }
    let w_tcp_under_tls: [u8; 7] = [116, 99, 112, 95, 116, 108, 115];
    proof {
        assert(w_tcp_under_tls@ =~= seq![116u8, 99u8, 112u8, 95u8, 116u8, 108u8, 115u8]);
    }
    let w_quic: [u8; 4] = [113, 117, 105, 99];
    proof {
        assert(w_quic@ =~= seq![113u8, 117u8, 105u8, 99u8]);
    }
    let w_q: [u8; 1] = [113];
    proof {
        assert(w_q@ =~= seq![113u8]);
    }
    let w_l: [u8; 1] = [108];
    proof {
        assert(w_l@ =~= seq![108u8]);
    }
    let ls = low.as_slice();
    if bytes_eq(ls, &w_tcp_dash_tls) {
        ConnectionMode::TcpTLS
    } else if bytes_eq(ls, &w_t) {
        ConnectionMode::TcpTLS
    } else if bytes_eq(ls, &w_tcp) {
        ConnectionMode::TcpTLS
    } else if bytes_eq(ls, &w_tcp_under_tls) {
        ConnectionMode::TcpTLS
    } else if bytes_eq(ls, &w_quic) {
        ConnectionMode::Quic
    } else if bytes_eq(ls, &w_q) {
        ConnectionMode::Quic
    } else if bytes_eq(ls, &w_l) {
        ConnectionMode::LiteTLS
    } else {
        ConnectionMode::Quic
    }
}

/// Turn a bare port argument into a loopback listen address.
pub fn parse_addr(l: &str) -> (r: String)
    ensures
        r@ == "127.0.0.1:"@ + l@,
{
    let prefix = String::from_str("127.0.0.1:");
    prefix.concat(l)
}

/// Share a borrowed string.
pub fn arc_string(s: &str) -> (r: Arc<String>)
    ensures
        (*r)@ == s@,
{
    Arc::new(String::from_str(s))
}

/// The SHA-224 digest of a byte string; what the bytes are is known
/// only to the hash implementation.
pub uninterp spec fn sha224_digest(input: Seq<u8>) -> Seq<u8>;

/// Relies on sha2::Sha224 (via the Digest trait): the digest depends
/// on the input bytes alone, and SHA-224 output is 28 bytes.
#[verifier::external_body]
fn sha224(input: &[u8]) -> (r: Vec<u8>)
    ensures
        r@ == sha224_digest(input@),
        r@.len() == 28,
{
    let digest = <sha2::Sha224 as sha2::Digest>::digest(input);
    digest.as_slice().to_vec()
}

/// The sixteen lowercase hex digit characters.
pub open spec fn hex_char(n: int) -> char {
    if n == 0 {
        '0'
    } else if n == 1 {
        '1'
    } else if n == 2 {
        '2'
    } else if n == 3 {
        '3'
    } else if n == 4 {
        '4'
    } else if n == 5 {
        '5'
    } else if n == 6 {
        '6'
    } else if n == 7 {
        '7'
    } else if n == 8 {
        '8'
    } else if n == 9 {
        '9'
    } else if n == 10 {
        'a'
    } else if n == 11 {
        'b'
    } else if n == 12 {
        'c'
    } else if n == 13 {
        'd'
    } else if n == 14 {
        'e'
    } else {
        'f'
    }
}

/// Lowercase hex spelling of a byte string, two characters per byte,
/// high nibble first.
pub open spec fn spec_hex(s: Seq<u8>) -> Seq<char>
    decreases s.len(),
{
    if s.len() == 0 {
        Seq::empty()
    } else {
        spec_hex(s.drop_last()) + seq![
            hex_char((s.last() / 16) as int),
            hex_char((s.last() % 16) as int),
        ]
    }
}

/// Hex spelling doubles the length.
pub proof fn lemma_spec_hex_len(s: Seq<u8>)
    ensures
        spec_hex(s).len() == 2 * s.len(),
    decreases s.len(),
{
    if s.len() > 0 {
        lemma_spec_hex_len(s.drop_last());
    }
}

/// One hex digit as a string slice.
fn hex_digit_str(n: u8) -> (r: &'static str)
    requires
        n < 16,
    ensures
        r@ == seq![hex_char(n as int)],
{
    proof {
        reveal_strlit("0");
        reveal_strlit("1");
        reveal_strlit("2");
        reveal_strlit("3");
        reveal_strlit("4");
        reveal_strlit("5");
        reveal_strlit("6");
        reveal_strlit("7");
        reveal_strlit("8");
        reveal_strlit("9");
        reveal_strlit("a");
        reveal_strlit("b");
        reveal_strlit("c");
        reveal_strlit("d");
        reveal_strlit("e");
        reveal_strlit("f");
    }
    let r = match n {
        0 => "0",
        1 => "1",
        2 => "2",
        3 => "3",
        4 => "4",
        5 => "5",
        6 => "6",
        7 => "7",
        8 => "8",
        9 => "9",
        10 => "a",
        11 => "b",
        12 => "c",
        13 => "d",
        14 => "e",
        _ => "f",
    };
    proof {
        assert(r@ =~= seq![hex_char(n as int)]);
    }
    r
}

/// Hash a password into its shared hex form: the SHA-224 digest,
/// spelled as 56 lowercase hex characters.
pub fn password_to_hash(s: &str) -> (r: Arc<String>)
    ensures
        (*r)@ == spec_hex(sha224_digest(s.spec_bytes())),
        (*r)@.len() == 2 * sha224_digest(s.spec_bytes()).len(),
{
    let digest = sha224(s.as_bytes());
    let mut out = String::new();
    let mut i: usize = 0;
    while i < digest.len()
        invariant
            i <= digest@.len(),
            digest@.len() == 28,
            out@ == spec_hex(digest@.take(i as int)),
        decreases digest@.len() - i,
    {
        let b = digest[i];
        out.append(hex_digit_str(b / 16));
        out.append(hex_digit_str(b % 16));
        i = i + 1;
        proof {
            let t = digest@.take(i as int);
            assert(t.drop_last() =~= digest@.take(i - 1));
            assert(t.last() == digest@[i - 1]);
        }
    }
    proof {
        assert(digest@.take(28) =~= digest@);
        lemma_spec_hex_len(digest@);
    }
    Arc::new(out)
}

} // verus!

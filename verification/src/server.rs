use vstd::prelude::*;

verus! {

/// How an accepted server-side stream is to be forwarded: kept inside
/// its TLS wrapper, or taken through the Lite-TLS handshake so that
/// the rest of the connection runs as plaintext TCP.
pub enum TcpOption<I> {
    TLS(I),
    LiteTLS(I),
}

impl<I> TcpOption<I> {
    /// Whether this stream is to attempt the Lite-TLS handshake.
    pub fn is_lite_tls(&self) -> (r: bool)
        ensures
            r == (*self is LiteTLS),
    {
        match self {
            TcpOption::TLS(_) => false,
            TcpOption::LiteTLS(_) => true,
        }
    }

    /// The wrapped stream.
    pub fn into_inner(self) -> (r: I)
        ensures
            self matches TcpOption::TLS(i) ==> r == i,
            self matches TcpOption::LiteTLS(i) ==> r == i,
    {
        match self {
            TcpOption::TLS(i) => i,
            TcpOption::LiteTLS(i) => i,
        }
    }
}

} // verus!

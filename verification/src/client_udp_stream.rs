use vstd::prelude::*;

use crate::error::ParserError;
use crate::mix_addr::{spec_decode, spec_encoded, spec_encoded_len, MixAddrType};
use crate::utils::UdpRelayBuffer;

verus! {

/// The three-byte SOCKS5 UDP request header: `RSV(2) | FRAG(1)`,
/// fixed to zeroes.
pub open spec fn socks5_udp_header() -> Seq<u8> {
    seq![0u8, 0u8, 0u8]
}

/// Byte buffer for datagrams sent back to the local SOCKS5 client;
/// it permanently starts with the three-byte UDP request header, so
/// "empty" means "holds only the header".
#[derive(Debug)]
pub struct Socks5UdpSpecifiedBuffer {
    inner: Vec<u8>,
}

impl Socks5UdpSpecifiedBuffer {
    pub closed spec fn data(&self) -> Seq<u8> {
        self.inner@
    }

    /// The header prefix is always present.
    pub open spec fn wf(&self) -> bool {
        self.data().len() >= 3 && self.data().take(3) == socks5_udp_header()
    }

    pub fn new(capacity: usize) -> (r: Self)
        ensures
            r.wf(),
            r.data() == socks5_udp_header(),
    {
        let mut inner: Vec<u8> = Vec::with_capacity(capacity);
        // The fields in the UDP request header are:
        //     o  RSV  Reserved X'0000'
        //     o  FRAG    Current fragment number
        inner.push(0);
        inner.push(0);
        inner.push(0);
        proof {
            assert(inner@ =~= socks5_udp_header());
            assert(inner@.take(3) =~= socks5_udp_header());
        }
        Socks5UdpSpecifiedBuffer { inner }
    }

    /// Drop everything after the header.
    pub fn reset(&mut self)
        requires
            old(self).wf(),
        ensures
            final(self).wf(),
            final(self).data() == socks5_udp_header(),
    {
        self.inner.truncate(3);
        proof {
            assert(self.inner@ =~= old(self).inner@.take(3));
            assert(self.inner@.take(3) =~= self.inner@);
        }
    }

    /// True when only the header is there.
    pub fn is_empty(&self) -> (r: bool)
        requires
            self.wf(),
        ensures
            r == (self.data().len() == 3),
    {
        self.inner.len() == 3
    }

    /// The whole frame, header included, ready to send.
    pub fn as_bytes(&self) -> (r: &[u8])
        ensures
            r@ == self.data(),
    {
        self.inner.as_slice()
    }

    pub fn len(&self) -> (r: usize)
        ensures
            r == self.data().len(),
    {
        self.inner.len()
    }

    pub fn extend_from_slice(&mut self, src: &[u8])
        requires
            old(self).wf(),
            old(self).data().len() + src@.len() <= usize::MAX,
        ensures
            final(self).wf(),
            final(self).data() == old(self).data() + src@,
    {
        let mut i: usize = 0;
        while i < src.len()
            invariant
                i <= src@.len(),
                self.inner@ == old(self).inner@ + src@.take(i as int),
            decreases src@.len() - i,
        {
            self.inner.push(src[i]);
            i = i + 1;
            proof {
                assert(self.inner@ =~= old(self).inner@ + src@.take(i as int));
            }
        }
        proof {
            assert(self.inner@ =~= old(self).inner@ + src@);
            assert(self.inner@.take(3) =~= old(self).inner@.take(3));
        }
    }

    /// Append the wire encoding of a destination address.
    pub fn append_addr(&mut self, addr: &MixAddrType)
        requires
            old(self).wf(),
            addr@.wf(),
            !addr@.is_null(),
            old(self).data().len() + spec_encoded_len(addr@) <= usize::MAX,
        ensures
            final(self).wf(),
            final(self).data() == old(self).data() + spec_encoded(addr@),
    {
        let bytes = addr.encoded_bytes();
        self.extend_from_slice(bytes.as_slice());
    }

    /// Fill an empty buffer with one reply frame
    /// (`header | DST | DATA`) and say whether it did; a buffer with a
    /// frame still pending is left alone.
    pub fn fill_if_empty(&mut self, addr: &MixAddrType, payload: &[u8]) -> (filled: bool)
        requires
            old(self).wf(),
            addr@.wf(),
            !addr@.is_null(),
            old(self).data().len() + spec_encoded_len(addr@) + payload@.len() <= usize::MAX,
        ensures
            final(self).wf(),
            old(self).data().len() == 3 ==> filled && final(self).data() == socks5_udp_header()
                + spec_encoded(addr@) + payload@,
            old(self).data().len() > 3 ==> !filled && final(self).data() == old(self).data(),
    {
        if self.is_empty() {
            self.append_addr(addr);
            self.extend_from_slice(payload);
            proof {
                assert(old(self).data() =~= socks5_udp_header());
            }
            true
        } else {
            false
        }
    }

    /// Note how many bytes of the pending frame one send consumed:
    /// only a send of the whole frame frees the buffer for new data.
    pub fn note_sent(&mut self, n: usize) -> (complete: bool)
        requires
            old(self).wf(),
        ensures
            final(self).wf(),
            n == old(self).data().len() ==> complete && final(self).data()
                == socks5_udp_header(),
            n != old(self).data().len() ==> !complete && final(self).data() == old(self).data(),
    {
        if n == self.inner.len() {
            self.reset();
            true
        } else {
            false
        }
    }
}

/// How the receive half reacts to a datagram from a peer address.
#[derive(Debug, Clone, Copy, PartialEq, Eq, Structural)]
pub enum PeerCheck {
    /// First peer ever: its address was latched and handed to the
    /// send half.
    First,
    /// The latched peer again.
    Same,
    /// A different peer: the association serves one client only, the
    /// read fails with `Interrupted`.
    Different,
    /// The one-shot address channel was already used up.
    ChannelGone,
}

/// The one-client latch of a SOCKS5 UDP association: the first peer
/// address seen is recorded and handed (once) to the send half;
/// datagrams from any other address are rejected.
///
/// An address is carried as plain values: the 16 IP bytes as one
/// `u128` (an IPv4 address in its IPv4-mapped IPv6 form, so that
/// distinct peers keep distinct keys) and the port.
pub struct ClientAddrLatch {
    client_udp_addr: Option<(u128, u16)>,
    addr_handed_off: bool,
}

impl ClientAddrLatch {
    pub closed spec fn latched(&self) -> Option<(u128, u16)> {
        self.client_udp_addr
    }

    pub closed spec fn handed_off(&self) -> bool {
        self.addr_handed_off
    }

    pub fn new() -> (r: Self)
        ensures
            r.latched() is None,
            !r.handed_off(),
    {
        ClientAddrLatch { client_udp_addr: None, addr_handed_off: false }
    }

    /// Judge a datagram from peer `(ip, port)`; see [`PeerCheck`].
    pub fn on_datagram(&mut self, ip: u128, port: u16) -> (r: PeerCheck)
        ensures
            old(self).latched() is None && !old(self).handed_off() ==> r == PeerCheck::First
                && final(self).latched() == Some((ip, port)) && final(self).handed_off(),
            old(self).latched() is None && old(self).handed_off() ==> r == PeerCheck::ChannelGone
                && *final(self) == *old(self),
            old(self).latched() == Some((ip, port)) ==> r == PeerCheck::Same && *final(self)
                == *old(self),
            (old(self).latched() matches Some(a) && a != (ip, port)) ==> r
                == PeerCheck::Different && *final(self) == *old(self),
    {
        match self.client_udp_addr {
            None => {
                if self.addr_handed_off {
                    return PeerCheck::ChannelGone;
                }
                self.client_udp_addr = Some((ip, port));
                self.addr_handed_off = true;
                PeerCheck::First
            },
            Some((a, p)) => {
                if a == ip && p == port {
                    PeerCheck::Same
                } else {
                    PeerCheck::Different
                }
            },
        }
    }
}

/// Parse one datagram received from the local SOCKS5 client:
/// `RSV(2) | FRAG(1) | ATYP | DST.ADDR | DST.PORT | DATA`.
///
/// A datagram under three bytes yields the `Null` address (treated as
/// end of stream); otherwise the three header bytes are skipped
/// without inspection, the destination is decoded, and the payload is
/// what remains in `buf` after the call.  `buf` must be drained
/// (nothing unconsumed) when the datagram arrives.
pub fn socks5_parse_datagram(buf: &mut UdpRelayBuffer, data: &[u8]) -> (r: Result<
    MixAddrType,
    ParserError,
>)
    requires
        old(buf).wf(),
        old(buf).chunk_view().len() == 0,
        old(buf).data().len() + data@.len() <= usize::MAX,
    ensures
        final(buf).wf(),
        data@.len() < 3 ==> (r matches Ok(m) && m@ is Null && *final(buf) == *old(buf)),
        data@.len() >= 3 ==> ({
            let body = data@.skip(3);
            match spec_decode(body) {
                Ok((a, n)) => r matches Ok(m) && m@ == a && final(buf).chunk_view() == body.skip(
                    n,
                ),
                Err(e) => r == Err::<MixAddrType, ParserError>(e) && final(buf).chunk_view()
                    == body,
            }
        }),
{
    if data.len() < 3 {
        return Ok(MixAddrType::new_null());
    }
    buf.extend_from_slice(data);
    proof {
        assert(buf.chunk_view() =~= data@);
    }
    buf.advance(3);
    let r = MixAddrType::from_encoded(buf);
    match r {
        Ok(addr) => Ok(addr),
        Err(e) => Err(e),
    }
}

} // verus!

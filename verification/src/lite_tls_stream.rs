use vstd::prelude::*;

use crate::error::ParserError;
use crate::tls_relay_buffer::{
    record_complete_at, record_total_len, spec_find_key_packets, Direction, Seen0x17,
    TlsRelayBuffer, TlsVersion,
};

verus! {

/// Which end of the tunnel this endpoint is.
#[derive(Debug, Clone, Copy, PartialEq, Eq, Structural)]
pub enum LiteTlsEndpointSide {
    ClientSide,
    ServerSide,
}

/// What the main handshake loop must do next after new bytes arrived
/// on one side: keep relaying checked records, or enter one of the
/// three termination sub-protocols.
#[derive(Debug, Clone, Copy, PartialEq, Eq, Structural)]
pub enum HandshakeDecision {
    RelayPending,
    HandshakeTls12Server,
    HandshakeTls12Client,
    HandshakeTls13,
}

/// The opposite peer direction.
pub open spec fn opposite(dir: Direction) -> Direction {
    match dir {
        Direction::Inbound => Direction::Outbound,
        Direction::Outbound => Direction::Inbound,
    }
}

/// How a scan result is dispatched on each side: `Tls12` enters the
/// side's TLS 1.2 sub-protocol, `Tls13` the shared TLS 1.3 one;
/// an incomplete scan keeps relaying; an invalid stream surfaces
/// `Invalid` so the caller falls back to plain TLS relaying.
pub open spec fn spec_decision(
    sr: Result<TlsVersion, ParserError>,
    side: LiteTlsEndpointSide,
) -> Result<HandshakeDecision, ParserError> {
    match sr {
        Ok(TlsVersion::Tls12) => if side is ServerSide {
            Ok(HandshakeDecision::HandshakeTls12Server)
        } else {
            Ok(HandshakeDecision::HandshakeTls12Client)
        },
        Ok(TlsVersion::Tls13) => Ok(HandshakeDecision::HandshakeTls13),
        Err(ParserError::Incomplete) => Ok(HandshakeDecision::RelayPending),
        Err(ParserError::Invalid) => Err(ParserError::Invalid),
    }
}

/// State of the Lite-TLS handshake-boundary detector: one record
/// buffer per direction, the application-data witness state, and the
/// side this endpoint plays.
///
/// The surrounding I/O loop feeds freshly read bytes in with `feed`,
/// asks `find_key_packets` what to do, and moves checked records to
/// the opposite peer with `take_checked`; every byte fed in is either
/// returned by a take-method or still resides in its buffer.
pub struct LiteTlsStream {
    inbound_buf: TlsRelayBuffer,
    outbound_buf: TlsRelayBuffer,
    seen_0x17: Seen0x17,
    side: LiteTlsEndpointSide,
}

impl LiteTlsStream {
    pub closed spec fn inbound(&self) -> TlsRelayBuffer {
        self.inbound_buf
    }

    pub closed spec fn outbound(&self) -> TlsRelayBuffer {
        self.outbound_buf
    }

    pub closed spec fn seen(&self) -> Seen0x17 {
        self.seen_0x17
    }

    pub closed spec fn endpoint_side(&self) -> LiteTlsEndpointSide {
        self.side
    }

    /// The buffer that direction `dir` reads into.
    pub open spec fn buf_of(&self, dir: Direction) -> TlsRelayBuffer {
        if dir is Inbound {
            self.inbound()
        } else {
            self.outbound()
        }
    }

    pub open spec fn wf(&self) -> bool {
        self.inbound().wf() && self.outbound().wf()
    }

    pub open spec fn is_fresh(&self) -> bool {
        &&& self.inbound().data() == Seq::<u8>::empty()
        &&& self.inbound().cur() == 0
        &&& self.outbound().data() == Seq::<u8>::empty()
        &&& self.outbound().cur() == 0
        &&& self.seen() is Neither
    }

    pub fn new_client_endpoint() -> (r: Self)
        ensures
            r.wf(),
            r.is_fresh(),
            r.endpoint_side() is ClientSide,
    {
        LiteTlsStream {
            inbound_buf: TlsRelayBuffer::new(),
            outbound_buf: TlsRelayBuffer::new(),
            seen_0x17: Seen0x17::Neither,
            side: LiteTlsEndpointSide::ClientSide,
        }
    }

    pub fn new_server_endpoint() -> (r: Self)
        ensures
            r.wf(),
            r.is_fresh(),
            r.endpoint_side() is ServerSide,
    {
        LiteTlsStream {
            inbound_buf: TlsRelayBuffer::new(),
            outbound_buf: TlsRelayBuffer::new(),
            seen_0x17: Seen0x17::Neither,
            side: LiteTlsEndpointSide::ServerSide,
        }
    }

    /// Which side this endpoint plays.
    pub fn side(&self) -> (r: LiteTlsEndpointSide)
        ensures
            r == self.endpoint_side(),
    {
        self.side
    }

    /// Append bytes freshly read from direction `dir` to its buffer.
    pub fn feed(&mut self, dir: Direction, bytes: &[u8])
        requires
            old(self).wf(),
            old(self).buf_of(dir).data().len() + bytes@.len() <= usize::MAX,
        ensures
            final(self).wf(),
            final(self).buf_of(dir).data() == old(self).buf_of(dir).data() + bytes@,
            final(self).buf_of(dir).cur() == old(self).buf_of(dir).cur(),
            final(self).buf_of(opposite(dir)) == old(self).buf_of(opposite(dir)),
            final(self).seen() == old(self).seen(),
            final(self).endpoint_side() == old(self).endpoint_side(),
    {
        match dir {
            Direction::Inbound => self.inbound_buf.extend_from_slice(bytes),
            Direction::Outbound => self.outbound_buf.extend_from_slice(bytes),
        }
    }

    /// Sniff the very first inbound packet; see
    /// [`TlsRelayBuffer::check_client_hello`].
    pub fn check_client_hello(&mut self) -> (r: Result<(), ParserError>)
        requires
            old(self).wf(),
        ensures
            final(self).wf(),
            r == TlsRelayBuffer::spec_client_hello(old(self).inbound().data()),
            final(self).inbound().data() == old(self).inbound().data(),
            final(self).outbound() == old(self).outbound(),
            final(self).seen() == old(self).seen(),
            final(self).endpoint_side() == old(self).endpoint_side(),
    {
        self.inbound_buf.check_client_hello()
    }

    /// Take every byte buffered for direction `dir`, resetting that
    /// buffer: the raw bytes are about to be relayed outside the
    /// record layer (the client hello, or the final flush).
    pub fn take_all(&mut self, dir: Direction) -> (r: Vec<u8>)
        requires
            old(self).wf(),
        ensures
            final(self).wf(),
            r@ == old(self).buf_of(dir).data(),
            final(self).buf_of(dir).data() == Seq::<u8>::empty(),
            final(self).buf_of(dir).cur() == 0,
            final(self).buf_of(opposite(dir)) == old(self).buf_of(opposite(dir)),
            final(self).seen() == old(self).seen(),
            final(self).endpoint_side() == old(self).endpoint_side(),
    {
        match dir {
            Direction::Inbound => self.inbound_buf.take_all(),
            Direction::Outbound => self.outbound_buf.take_all(),
        }
    }

    /// Take the checked records of direction `dir`, to be written to
    /// the opposite peer; `None` when nothing is checked yet, so that
    /// the caller does not perform an empty write (which a peer could
    /// mistake for EOF).  Nothing is lost: what is returned plus what
    /// stays is exactly what was buffered.
    pub fn take_checked(&mut self, dir: Direction) -> (r: Option<Vec<u8>>)
        requires
            old(self).wf(),
        ensures
            final(self).wf(),
            r matches Some(v) ==> {
                &&& v@ == old(self).buf_of(dir).checked_view()
                &&& v@.len() > 0
                &&& final(self).buf_of(dir).data() == old(self).buf_of(dir).unchecked_view()
                &&& final(self).buf_of(dir).cur() == 0
            },
            r is None ==> {
                &&& old(self).buf_of(dir).checked_view().len() == 0
                &&& final(self).buf_of(dir) == old(self).buf_of(dir)
            },
            final(self).buf_of(opposite(dir)) == old(self).buf_of(opposite(dir)),
            final(self).seen() == old(self).seen(),
            final(self).endpoint_side() == old(self).endpoint_side(),
    {
        match dir {
            Direction::Inbound => self.inbound_buf.take_checked(),
            Direction::Outbound => self.outbound_buf.take_checked(),
        }
    }

    /// Scan the buffer of direction `dir` for key packets and decide
    /// the next step of the handshake; see [`spec_find_key_packets`]
    /// and [`spec_decision`].
    pub fn find_key_packets(&mut self, dir: Direction) -> (r: Result<
        HandshakeDecision,
        ParserError,
    >)
        requires
            old(self).wf(),
        ensures
            final(self).wf(),
            final(self).endpoint_side() == old(self).endpoint_side(),
            final(self).buf_of(opposite(dir)) == old(self).buf_of(opposite(dir)),
            ({
                let (sr, scur, sseen) = spec_find_key_packets(
                    old(self).buf_of(dir).data(),
                    old(self).buf_of(dir).cur(),
                    old(self).seen(),
                    dir,
                );
                &&& final(self).seen() == sseen
                &&& final(self).buf_of(dir).data() == old(self).buf_of(dir).data()
                &&& final(self).buf_of(dir).cur() == scur
                &&& r == spec_decision(sr, old(self).endpoint_side())
            }),
    {
        let mut seen = self.seen_0x17;
        let scan = match dir {
            Direction::Inbound => self.inbound_buf.find_key_packets(&mut seen, dir),
            Direction::Outbound => self.outbound_buf.find_key_packets(&mut seen, dir),
        };
        self.seen_0x17 = seen;
        match scan {
            Ok(TlsVersion::Tls12) => {
                match self.side {
                    LiteTlsEndpointSide::ServerSide => Ok(
                        HandshakeDecision::HandshakeTls12Server,
                    ),
                    LiteTlsEndpointSide::ClientSide => Ok(
                        HandshakeDecision::HandshakeTls12Client,
                    ),
                }
            },
            Ok(TlsVersion::Tls13) => Ok(HandshakeDecision::HandshakeTls13),
            Err(ParserError::Incomplete) => Ok(HandshakeDecision::RelayPending),
            Err(ParserError::Invalid) => Err(ParserError::Invalid),
        }
    }

    /// TLS 1.2, server side: after the leave-TLS command went out, the
    /// next inbound record must be the client's `0xff` acknowledgement.
    /// Anything else means the client spoke out of turn, and the
    /// handshake fails with `Invalid`.
    pub fn tls12_server_verify_ack(&mut self) -> (r: Result<(), ParserError>)
        requires
            old(self).wf(),
        ensures
            final(self).wf(),
            final(self).outbound() == old(self).outbound(),
            final(self).seen() == old(self).seen(),
            final(self).endpoint_side() == old(self).endpoint_side(),
            ({
                let d = old(self).inbound().data();
                let c = old(self).inbound().cur();
                if !record_complete_at(d, c) {
                    r == Err::<(), ParserError>(ParserError::Incomplete) && final(self).inbound().data() == d && final(self).inbound().cur() == c
                } else if d[c] == 0xff {
                    r == Ok::<(), ParserError>(()) && final(self).inbound().data() == d.skip(
                        c + record_total_len(d, c),
                    ) && final(self).inbound().cur() == 0
                } else {
                    r == Err::<(), ParserError>(ParserError::Invalid) && final(self).inbound().data() == d && final(self).inbound().cur() == c
                        + record_total_len(d, c)
                }
            }),
    {
        let ty = match self.inbound_buf.check_tls_packet() {
            Ok(t) => t,
            Err(e) => {
                return Err(e);
            },
        };
        if ty != 0xff {
            return Err(ParserError::Invalid);
        }
        self.inbound_buf.pop_checked_packets();
        Ok(())
    }

    /// TLS 1.2, client side: consume the peer's `0xff` leave-TLS
    /// command record, which the scan left at the cursor.
    pub fn tls12_client_consume_command(&mut self) -> (r: Result<(), ParserError>)
        requires
            old(self).wf(),
        ensures
            final(self).wf(),
            final(self).inbound() == old(self).inbound(),
            final(self).seen() == old(self).seen(),
            final(self).endpoint_side() == old(self).endpoint_side(),
            ({
                let d = old(self).outbound().data();
                let c = old(self).outbound().cur();
                if record_complete_at(d, c) {
                    r == Ok::<(), ParserError>(()) && final(self).outbound().data() == d.skip(
                        c + record_total_len(d, c),
                    ) && final(self).outbound().cur() == 0
                } else {
                    r == Err::<(), ParserError>(ParserError::Incomplete) && final(self).outbound().data() == d && final(self).outbound().cur() == c
                }
            }),
    {
        match self.outbound_buf.check_tls_packet() {
            Ok(_) => {},
            Err(e) => {
                return Err(e);
            },
        }
        self.outbound_buf.pop_checked_packets();
        Ok(())
    }

    /// TLS 1.3, both sides: move the cursor past the record that ended
    /// the scan (the `0x14` beacon), `Incomplete` when it is not fully
    /// buffered yet — the caller then reads once more and retries.
    pub fn tls13_advance_record(&mut self) -> (r: Result<(), ParserError>)
        requires
            old(self).wf(),
        ensures
            final(self).wf(),
            final(self).outbound() == old(self).outbound(),
            final(self).seen() == old(self).seen(),
            final(self).endpoint_side() == old(self).endpoint_side(),
            final(self).inbound().data() == old(self).inbound().data(),
            ({
                let d = old(self).inbound().data();
                let c = old(self).inbound().cur();
                if record_complete_at(d, c) {
                    r == Ok::<(), ParserError>(()) && final(self).inbound().cur() == c
                        + record_total_len(d, c)
                } else {
                    r == Err::<(), ParserError>(ParserError::Incomplete) && final(self).inbound().cur() == c
                }
            }),
    {
        match self.inbound_buf.check_tls_packet() {
            Ok(_) => Ok(()),
            Err(e) => Err(e),
        }
    }

    /// TLS 1.3, client side: the one extra record read from the peer
    /// must be the `0x14` synchronization beacon; then the outbound
    /// buffer is cleared (the beacon is not part of the relayed
    /// stream) and the TLS channel can be left.
    pub fn tls13_client_finish(&mut self) -> (r: Result<(), ParserError>)
        requires
            old(self).wf(),
        ensures
            final(self).wf(),
            final(self).inbound() == old(self).inbound(),
            final(self).seen() == old(self).seen(),
            final(self).endpoint_side() == old(self).endpoint_side(),
            ({
                let d = old(self).outbound().data();
                let c = old(self).outbound().cur();
                if !record_complete_at(d, c) {
                    r == Err::<(), ParserError>(ParserError::Incomplete) && final(self).outbound().data() == d && final(self).outbound().cur() == c
                } else if d[c] == 0x14 {
                    r == Ok::<(), ParserError>(()) && final(self).outbound().data()
                        == Seq::<u8>::empty() && final(self).outbound().cur() == 0
                } else {
                    r == Err::<(), ParserError>(ParserError::Invalid) && final(self).outbound().data() == d && final(self).outbound().cur() == c
                        + record_total_len(d, c)
                }
            }),
    {
        let ty = match self.outbound_buf.check_tls_packet() {
            Ok(t) => t,
            Err(e) => {
                return Err(e);
            },
        };
        if ty != 0x14 {
            return Err(ParserError::Invalid);
        }
        self.outbound_buf.reset();
        Ok(())
    }

    /// TLS 1.3, server side: any byte still buffered from the client
    /// at this point means the two ends lost synchronization, so the
    /// handshake fails with `Invalid`; otherwise the `0x14` beacon to
    /// write back to the client is returned.
    pub fn tls13_server_finish(&mut self) -> (r: Result<Vec<u8>, ParserError>)
        requires
            old(self).wf(),
        ensures
            final(self).wf(),
            *final(self) == *old(self),
            old(self).inbound().data().len() != 0 ==> (r matches Err(e) && e
                == ParserError::Invalid),
            old(self).inbound().data().len() == 0 ==> (r matches Ok(v) && v@ == seq![
                0x14u8,
                0x03u8,
                0x03u8,
                0x00u8,
                0x01u8,
                0x01u8,
            ]),
    {
        if self.inbound_buf.len() != 0 {
            return Err(ParserError::Invalid);
        }
        let mut ccs: Vec<u8> = Vec::new();
        ccs.push(0x14);
        ccs.push(0x03);
        ccs.push(0x03);
        ccs.push(0x00);
        ccs.push(0x01);
        ccs.push(0x01);
        proof {
            assert(ccs@ =~= seq![0x14u8, 0x03u8, 0x03u8, 0x00u8, 0x01u8, 0x01u8]);
        }
        Ok(ccs)
    }

    /// Final flush before the TLS wrappers are discarded: everything
    /// still buffered is handed back, inbound bytes first, outbound
    /// bytes second, and the endpoint is left empty.  The caller
    /// writes the first vector to the outbound peer and the second to
    /// the inbound peer.
    pub fn flush_take(&mut self) -> (r: (Vec<u8>, Vec<u8>))
        requires
            old(self).wf(),
        ensures
            final(self).wf(),
            r.0@ == old(self).inbound().data(),
            r.1@ == old(self).outbound().data(),
            final(self).inbound().data() == Seq::<u8>::empty(),
            final(self).outbound().data() == Seq::<u8>::empty(),
            final(self).seen() == old(self).seen(),
            final(self).endpoint_side() == old(self).endpoint_side(),
    {
        let a = self.inbound_buf.take_all();
        let b = self.outbound_buf.take_all();
        (a, b)
    }
}

/// Law: the handshake loop conserves bytes.  In a well-formed
/// endpoint, each buffer holds exactly its checked prefix followed by
/// its unparsed tail — and since `feed` appends exactly what was
/// read, while `take_checked`, `take_all` and `flush_take` return
/// exactly what they remove, every byte read from a peer is at any
/// point either already handed out for writing to the opposite peer
/// or still resident in exactly one of the two buffers.
pub proof fn lemma_handshake_conserves_bytes(st: LiteTlsStream)
    requires
        st.wf(),
    ensures
        st.inbound().data() == st.inbound().checked_view() + st.inbound().unchecked_view(),
        st.outbound().data() == st.outbound().checked_view() + st.outbound().unchecked_view(),
{
    crate::tls_relay_buffer::lemma_checked_packets_are_records(st.inbound());
    crate::tls_relay_buffer::lemma_checked_packets_are_records(st.outbound());
}

} // verus!

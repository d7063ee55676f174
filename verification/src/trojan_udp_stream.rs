use vstd::prelude::*;

use crate::error::ParserError;
use crate::mix_addr::{
    spec_decode, spec_encoded, spec_encoded_len, MixAddrType, MixAddrView,
};
use crate::tls_relay_buffer::spec_extract_len;
use crate::utils::UdpRelayBuffer;

verus! {

/// Abstract receive-side state of a Trojan UDP stream: the address of
/// the datagram being assembled (`Null` while not yet parsed), the
/// payload length announced by the frame header (`None` while not yet
/// parsed), and the unconsumed bytes of the receive buffer.
pub struct RecvState {
    pub addr: MixAddrView,
    pub expecting: Option<usize>,
    pub chunk: Seq<u8>,
}

/// What one attempt at extracting a datagram yields.
pub enum ExtractOutcome {
    /// More bytes must arrive first.
    Pending,
    /// A whole datagram: its destination and its payload.
    Packet(MixAddrView, Seq<u8>),
    /// The stream violates the framing.
    Bad,
}

/// Phase one: parse the destination address, if not done yet.
pub open spec fn spec_addr_step(st: RecvState) -> Result<RecvState, ParserError> {
    if !(st.addr is Null) {
        Ok(st)
    } else {
        match spec_decode(st.chunk) {
            Ok((a, n)) => Ok(
                RecvState { addr: a, expecting: st.expecting, chunk: st.chunk.skip(n) },
            ),
            Err(e) => Err(e),
        }
    }
}

/// Phase two: parse the two-byte payload length and skip the CRLF, if
/// not done yet.
pub open spec fn spec_expect_step(st: RecvState) -> Result<RecvState, ParserError> {
    if st.expecting is Some {
        Ok(st)
    } else if st.chunk.len() < 4 {
        Err(ParserError::Incomplete)
    } else {
        Ok(
            RecvState {
                addr: st.addr,
                expecting: Some(spec_extract_len(st.chunk) as usize),
                chunk: st.chunk.skip(4),
            },
        )
    }
}

/// The whole extraction attempt: datagrams are never fragmented, so
/// either the complete payload is resident and comes out together
/// with its address (resetting the per-datagram state), or the state
/// so far is kept and the attempt is pending.
pub open spec fn spec_try_extract(st0: RecvState) -> (ExtractOutcome, RecvState) {
    match spec_addr_step(st0) {
        Err(ParserError::Invalid) => (ExtractOutcome::Bad, st0),
        Err(ParserError::Incomplete) => (ExtractOutcome::Pending, st0),
        Ok(st1) => match spec_expect_step(st1) {
            Err(_) => (ExtractOutcome::Pending, st1),
            Ok(st2) => match st2.expecting {
                Some(exp) => if exp <= st2.chunk.len() {
                    (
                        ExtractOutcome::Packet(st2.addr, st2.chunk.take(exp as int)),
                        RecvState {
                            addr: MixAddrView::Null,
                            expecting: None,
                            chunk: st2.chunk.skip(exp as int),
                        },
                    )
                } else {
                    (ExtractOutcome::Pending, st2)
                },
                None => (ExtractOutcome::Pending, st2),
            },
        },
    }
}

/// The Trojan UDP wire frame for one datagram:
/// `ATYP | DST.ADDR | DST.PORT | Length(2, BE) | CRLF | Payload`.
pub open spec fn spec_frame(a: MixAddrView, payload: Seq<u8>) -> Seq<u8> {
    spec_encoded(a) + seq![
        (payload.len() as int / 256) as u8,
        (payload.len() as int % 256) as u8,
        13u8,
        10u8,
    ] + payload
}

/// Frames and deframes Trojan UDP datagrams over a reliable byte
/// stream `IO`.  This type holds the codec state; the surrounding
/// asynchronous loop owns the polling of `inner` and hands raw bytes
/// in and out.
pub struct TrojanUdpStream<IO> {
    /// The underlying byte stream, untouched by the codec.
    pub inner: IO,
    buffered_request: Option<(usize, Vec<u8>)>,
    // recv half
    recv_buffer: UdpRelayBuffer,
    expecting: Option<usize>,
    addr_buf: MixAddrType,
    // send half
    send_buffer: UdpRelayBuffer,
    data_len: usize,
}

impl<IO> TrojanUdpStream<IO> {
    /// The underlying stream, as a spec value.
    pub closed spec fn io_view(&self) -> IO {
        self.inner
    }

    pub closed spec fn recv_buf(&self) -> UdpRelayBuffer {
        self.recv_buffer
    }

    pub closed spec fn send_buf(&self) -> UdpRelayBuffer {
        self.send_buffer
    }

    pub closed spec fn expecting_view(&self) -> Option<usize> {
        self.expecting
    }

    pub closed spec fn addr_view(&self) -> MixAddrView {
        self.addr_buf@
    }

    pub closed spec fn buffered_view(&self) -> Option<(usize, Vec<u8>)> {
        self.buffered_request
    }

    /// The user payload length remembered by the send half.
    pub closed spec fn user_data_len(&self) -> usize {
        self.data_len
    }

    /// The abstract receive-side state.
    pub open spec fn recv_state(&self) -> RecvState {
        RecvState {
            addr: self.addr_view(),
            expecting: self.expecting_view(),
            chunk: self.recv_buf().chunk_view(),
        }
    }

    pub open spec fn wf(&self) -> bool {
        &&& self.recv_buf().wf()
        &&& self.send_buf().wf()
        &&& self.addr_view().wf()
        &&& (self.expecting_view() matches Some(e) ==> e <= 65535)
    }

    pub fn new(inner: IO, buffered_request: Option<(usize, Vec<u8>)>) -> (r: Self)
        ensures
            r.wf(),
            r.io_view() == inner,
            r.buffered_view() == buffered_request,
            r.recv_buf().data() == Seq::<u8>::empty(),
            r.recv_buf().cur() == 0,
            r.expecting_view() is None,
            r.addr_view() is Null,
            r.send_buf().data() == Seq::<u8>::empty(),
            r.send_buf().cur() == 0,
            r.user_data_len() == 0,
    {
        TrojanUdpStream {
            inner,
            buffered_request,
            recv_buffer: UdpRelayBuffer::new(),
            expecting: None,
            addr_buf: MixAddrType::new_null(),
            send_buffer: UdpRelayBuffer::new(),
            data_len: 0,
        }
    }

    /// Hand out the bytes that were already read before this stream
    /// was built; they precede everything the underlying stream will
    /// yield.
    pub fn take_buffered(&mut self) -> (r: Option<(usize, Vec<u8>)>)
        ensures
            r == old(self).buffered_view(),
            final(self).buffered_view() is None,
            final(self).io_view() == old(self).io_view(),
            final(self).recv_buf() == old(self).recv_buf(),
            final(self).expecting_view() == old(self).expecting_view(),
            final(self).addr_view() == old(self).addr_view(),
            final(self).send_buf() == old(self).send_buf(),
            final(self).user_data_len() == old(self).user_data_len(),
    {
        let mut b: Option<(usize, Vec<u8>)> = None;
        core::mem::swap(&mut b, &mut self.buffered_request);
        b
    }

    /// Append bytes freshly read from the underlying stream to the
    /// receive buffer.
    pub fn feed_recv(&mut self, bytes: &[u8])
        requires
            old(self).wf(),
            old(self).recv_buf().data().len() + bytes@.len() <= usize::MAX,
        ensures
            final(self).wf(),
            final(self).recv_state() == (RecvState {
                addr: old(self).addr_view(),
                expecting: old(self).expecting_view(),
                chunk: old(self).recv_state().chunk + bytes@,
            }),
            final(self).recv_buf().data().len() == old(self).recv_buf().data().len()
                + bytes@.len(),
            final(self).io_view() == old(self).io_view(),
            final(self).buffered_view() == old(self).buffered_view(),
            final(self).send_buf() == old(self).send_buf(),
            final(self).user_data_len() == old(self).user_data_len(),
    {
        self.recv_buffer.extend_from_slice(bytes);
        proof {
            assert(self.recv_buffer.chunk_view() =~= old(self).recv_buffer.chunk_view()
                + bytes@);
        }
    }

    /// Parse the destination address of the datagram being assembled,
    /// unless that already happened.  `Ok(true)` means the address is
    /// available, `Ok(false)` that more bytes are needed.
    pub fn try_update_addr_buf(&mut self) -> (r: Result<bool, ParserError>)
        requires
            old(self).wf(),
        ensures
            final(self).wf(),
            ({
                let st0 = old(self).recv_state();
                match spec_addr_step(st0) {
                    Ok(st1) => r == Ok::<bool, ParserError>(true) && final(self).recv_state()
                        == st1,
                    Err(ParserError::Incomplete) => r == Ok::<bool, ParserError>(false) && final(self).recv_state() == st0,
                    Err(ParserError::Invalid) => r == Err::<bool, ParserError>(
                        ParserError::Invalid,
                    ) && final(self).recv_state() == st0,
                }
            }),
            final(self).recv_buf().data().len() == old(self).recv_buf().data().len(),
            final(self).io_view() == old(self).io_view(),
            final(self).buffered_view() == old(self).buffered_view(),
            final(self).send_buf() == old(self).send_buf(),
            final(self).user_data_len() == old(self).user_data_len(),
    {
        if self.addr_buf.is_none() {
            match MixAddrType::from_encoded(&mut self.recv_buffer) {
                Ok(addr) => {
                    self.addr_buf = addr;
                    Ok(true)
                },
                Err(ParserError::Incomplete) => Ok(false),
                Err(ParserError::Invalid) => Err(ParserError::Invalid),
            }
        } else {
            Ok(true)
        }
    }

    /// Parse the announced payload length and skip the CRLF, unless
    /// that already happened.  `false` means more bytes are needed.
    pub fn try_update_expecting(&mut self) -> (r: bool)
        requires
            old(self).wf(),
        ensures
            final(self).wf(),
            ({
                let st0 = old(self).recv_state();
                match spec_expect_step(st0) {
                    Ok(st1) => r == true && final(self).recv_state() == st1,
                    Err(_) => r == false && final(self).recv_state() == st0,
                }
            }),
            final(self).recv_buf().data().len() == old(self).recv_buf().data().len(),
            final(self).io_view() == old(self).io_view(),
            final(self).buffered_view() == old(self).buffered_view(),
            final(self).send_buf() == old(self).send_buf(),
            final(self).user_data_len() == old(self).user_data_len(),
    {
        match self.expecting {
            None => {
                if self.recv_buffer.remaining() < 4 {
                    return false;
                }
                let exp = {
                    let c = self.recv_buffer.chunk();
                    (c[0] as usize) * 256 + (c[1] as usize)
                };
                self.expecting = Some(exp);
                // `len` + `\r\n`
                self.recv_buffer.advance(2 + 2);
                self.recv_buffer.reserve(exp);
                true
            },
            Some(_) => true,
        }
    }

    /// Try to hand one whole datagram to `outer_buf`: its payload is
    /// appended there and its address returned.  Datagrams are not
    /// fragmented — either the complete payload is resident, or
    /// nothing is consumed and `Ok(None)` asks the caller to read
    /// more.  See [`spec_try_extract`].
    pub fn try_extract_packet(&mut self, outer_buf: &mut UdpRelayBuffer) -> (r: Result<
        Option<MixAddrType>,
        ParserError,
    >)
        requires
            old(self).wf(),
            old(outer_buf).wf(),
            old(outer_buf).data().len() + 65536 <= usize::MAX,
        ensures
            final(self).wf(),
            final(outer_buf).wf(),
            ({
                let (oc, st) = spec_try_extract(old(self).recv_state());
                &&& final(self).recv_state() == st
                &&& (oc is Bad ==> r == Err::<Option<MixAddrType>, ParserError>(
                    ParserError::Invalid,
                ) && *final(outer_buf) == *old(outer_buf))
                &&& (oc is Pending ==> r == Ok::<Option<MixAddrType>, ParserError>(None) && *final(outer_buf) == *old(outer_buf))
                &&& (oc matches ExtractOutcome::Packet(a, p) ==> (r matches Ok(x) && x matches Some(m) && m@ == a
                    && final(outer_buf).data() == old(outer_buf).data() + p && final(outer_buf).cur() == old(outer_buf).cur()))
            }),
            final(self).recv_buf().data().len() <= old(self).recv_buf().data().len(),
            final(self).io_view() == old(self).io_view(),
            final(self).buffered_view() == old(self).buffered_view(),
            final(self).send_buf() == old(self).send_buf(),
            final(self).user_data_len() == old(self).user_data_len(),
    {
        match self.try_update_addr_buf() {
            Ok(true) => {},
            Ok(false) => {
                return Ok(None);
            },
            Err(e) => {
                return Err(e);
            },
        }
        if !self.try_update_expecting() {
            return Ok(None);
        }
        let exp = match self.expecting {
            Some(e) => e,
            None => {
                return Ok(None);
            },
        };
        // udp shouldn't be fragmented: we read in the packet as a
        // whole or we report pending
        let ghost st2 = self.recv_state();
        proof {
            assert(st2.expecting == Some(exp));
            assert(spec_expect_step(spec_addr_step(old(self).recv_state()).unwrap()).unwrap()
                == st2);
        }
        if exp <= self.recv_buffer.remaining() {
            outer_buf.reserve(exp);
            {
                let pair = self.recv_buffer.chunk().split_at(exp);
                proof {
                    assert(pair.0@ =~= st2.chunk.take(exp as int));
                }
                outer_buf.extend_from_slice(pair.0);
            }
            self.recv_buffer.advance(exp);
            self.recv_buffer.compact();
            self.expecting = None;
            let mut addr = MixAddrType::new_null();
            core::mem::swap(&mut addr, &mut self.addr_buf);
            proof {
                assert(self.recv_buffer.chunk_view() =~= st2.chunk.skip(exp as int));
                assert(self.recv_state() == (RecvState {
                    addr: MixAddrView::Null,
                    expecting: None,
                    chunk: st2.chunk.skip(exp as int),
                }));
            }
            Ok(Some(addr))
        } else {
            Ok(None)
        }
    }

    /// One read step of the receive half: `data` is what the
    /// underlying stream just yielded.  A read of zero bytes is EOF
    /// and produces the `Null` address with nothing written to
    /// `outer_buf`; otherwise the bytes join the receive buffer and
    /// one extraction attempt is made.
    pub fn handle_read(&mut self, data: &[u8], outer_buf: &mut UdpRelayBuffer) -> (r: Result<
        Option<MixAddrType>,
        ParserError,
    >)
        requires
            old(self).wf(),
            old(outer_buf).wf(),
            old(outer_buf).data().len() + 65536 <= usize::MAX,
            old(self).recv_buf().data().len() + data@.len() <= usize::MAX,
        ensures
            final(self).wf(),
            final(outer_buf).wf(),
            data@.len() == 0 ==> (r matches Ok(x) && x matches Some(m) && m@ is Null && *final(self) == *old(self) && *final(outer_buf) == *old(outer_buf)),
            data@.len() > 0 ==> ({
                let st0 = RecvState {
                    addr: old(self).addr_view(),
                    expecting: old(self).expecting_view(),
                    chunk: old(self).recv_state().chunk + data@,
                };
                let (oc, st) = spec_try_extract(st0);
                &&& final(self).recv_state() == st
                &&& (oc is Bad ==> r == Err::<Option<MixAddrType>, ParserError>(
                    ParserError::Invalid,
                ) && *final(outer_buf) == *old(outer_buf))
                &&& (oc is Pending ==> r == Ok::<Option<MixAddrType>, ParserError>(None) && *final(outer_buf) == *old(outer_buf))
                &&& (oc matches ExtractOutcome::Packet(a, p) ==> (r matches Ok(x) && x matches Some(m) && m@ == a
                    && final(outer_buf).data() == old(outer_buf).data() + p && final(outer_buf).cur() == old(outer_buf).cur()))
            }),
            final(self).recv_buf().data().len() <= old(self).recv_buf().data().len()
                + data@.len(),
            final(self).io_view() == old(self).io_view(),
            final(self).buffered_view() == old(self).buffered_view(),
            final(self).send_buf() == old(self).send_buf(),
            final(self).user_data_len() == old(self).user_data_len(),
    {
        if data.len() == 0 {
            // EOF is seen
            return Ok(Some(MixAddrType::new_null()));
        }
        self.feed_recv(data);
        self.try_extract_packet(outer_buf)
    }

    /// Fill the send buffer with one framed datagram, unless a frame
    /// is still pending there; the user payload length is remembered
    /// and reported when the frame has fully left.
    pub fn prepare_send(&mut self, buf: &[u8], addr: &MixAddrType)
        requires
            old(self).wf(),
            addr@.wf(),
            !addr@.is_null(),
            buf@.len() <= 65535,
        ensures
            final(self).wf(),
            old(self).send_buf().data().len() == 0 ==> {
                &&& final(self).send_buf().data() == spec_frame(addr@, buf@)
                &&& final(self).send_buf().cur() == 0
                &&& final(self).user_data_len() == buf@.len()
            },
            old(self).send_buf().data().len() > 0 ==> final(self).send_buf() == old(self).send_buf() && final(self).user_data_len() == old(self).user_data_len(),
            final(self).io_view() == old(self).io_view(),
            final(self).buffered_view() == old(self).buffered_view(),
            final(self).recv_buf() == old(self).recv_buf(),
            final(self).expecting_view() == old(self).expecting_view(),
            final(self).addr_view() == old(self).addr_view(),
    {
        if !self.send_buffer.is_empty() {
            return ;
        }
        self.data_len = buf.len();
        let enc_len = addr.encoded_len();
        self.send_buffer.reserve(enc_len + 4 + buf.len());
        addr.write_buf(&mut self.send_buffer);
        let l = buf.len();
        let header: [u8; 4] = [(l / 256) as u8, (l % 256) as u8, 13, 10];
        self.send_buffer.extend_from_slice(&header);
        self.send_buffer.extend_from_slice(buf);
        proof {
            assert(header@ =~= seq![
                (buf@.len() as int / 256) as u8,
                (buf@.len() as int % 256) as u8,
                13u8,
                10u8,
            ]);
            assert(self.send_buffer.data() =~= spec_frame(addr@, buf@));
        }
    }

    /// The part of the pending frame that still has to be written.
    pub fn send_chunk(&self) -> (r: &[u8])
        requires
            self.wf(),
        ensures
            r@ == self.send_buf().chunk_view(),
    {
        self.send_buffer.chunk()
    }

    /// Note that `n` bytes of the pending frame were written out.
    /// `Some(0)` reports a dead peer (a write of zero bytes),
    /// `Some(len)` that the frame fully left — `len` being the user
    /// payload length, not the framed length — and `None` that part
    /// of the frame is still pending.
    pub fn note_sent(&mut self, n: usize) -> (r: Option<usize>)
        requires
            old(self).wf(),
            n <= old(self).send_buf().chunk_view().len(),
        ensures
            final(self).wf(),
            n == 0 ==> r == Some(0usize) && *final(self) == *old(self),
            n > 0 && n < old(self).send_buf().chunk_view().len() ==> {
                &&& r is None
                &&& final(self).send_buf().data() == old(self).send_buf().data()
                &&& final(self).send_buf().chunk_view() == old(self).send_buf().chunk_view().skip(
                    n as int,
                )
            },
            n > 0 && n == old(self).send_buf().chunk_view().len() ==> {
                &&& r == Some(old(self).user_data_len())
                &&& final(self).send_buf().data() == Seq::<u8>::empty()
                &&& final(self).send_buf().cur() == 0
            },
            final(self).io_view() == old(self).io_view(),
            final(self).buffered_view() == old(self).buffered_view(),
            final(self).recv_buf() == old(self).recv_buf(),
            final(self).expecting_view() == old(self).expecting_view(),
            final(self).addr_view() == old(self).addr_view(),
            final(self).user_data_len() == old(self).user_data_len(),
    {
        if n == 0 {
            return Some(0);
        }
        let rem = self.send_buffer.remaining();
        if n < rem {
            self.send_buffer.advance(n);
            None
        } else {
            self.send_buffer.reset();
            Some(self.data_len)
        }
    }
}

/// Law: a Trojan UDP frame round-trips.  Framing a payload for a
/// valid address and then running the extraction on the framed bytes
/// (followed by anything else in flight) yields exactly that address
/// and payload, consumes exactly the frame, and arms the state for
/// the next datagram.
pub proof fn lemma_trojan_frame_round_trip(a: MixAddrView, payload: Seq<u8>, rest: Seq<u8>)
    requires
        a.wf(),
        !a.is_null(),
        payload.len() <= 65535,
    ensures
        spec_try_extract(
            RecvState { addr: MixAddrView::Null, expecting: None, chunk: spec_frame(a, payload) + rest },
        ) == (
            ExtractOutcome::Packet(a, payload),
            RecvState { addr: MixAddrView::Null, expecting: None, chunk: rest },
        ),
{
    let hdr = seq![
        (payload.len() as int / 256) as u8,
        (payload.len() as int % 256) as u8,
        13u8,
        10u8,
    ];
    let s = spec_frame(a, payload) + rest;
    assert(s =~= spec_encoded(a) + (hdr + payload + rest));
    crate::mix_addr::lemma_mix_addr_round_trip(a, hdr + payload + rest);
    let st0 = RecvState { addr: MixAddrView::Null, expecting: None, chunk: s };
    let st1 = spec_addr_step(st0).unwrap();
    assert(st1.chunk =~= hdr + payload + rest) by {
        assert(s.skip(spec_encoded_len(a)) =~= hdr + payload + rest) by {
            assert(spec_encoded(a).len() == spec_encoded_len(a)) by {
                lemma_encoded_len(a);
            }
        }
    }
    let n = payload.len() as int;
    assert(spec_extract_len(st1.chunk) == n) by {
        assert(st1.chunk[0] == (n / 256) as u8);
        assert(st1.chunk[1] == (n % 256) as u8);
        vstd::arithmetic::div_mod::lemma_fundamental_div_mod(n, 256);
    }
    let st2 = spec_expect_step(st1).unwrap();
    assert(st2.chunk =~= payload + rest);
    assert(st2.chunk.take(n) =~= payload);
    assert(st2.chunk.skip(n) =~= rest);
}

/// The encoding really has the announced length.
proof fn lemma_encoded_len(a: MixAddrView)
    requires
        a.wf(),
    ensures
        spec_encoded(a).len() == spec_encoded_len(a),
{
}

} // verus!

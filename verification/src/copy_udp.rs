use vstd::prelude::*;

use crate::mix_addr::MixAddrType;
use crate::utils::UdpRelayBuffer;

verus! {

/// State of the datagram pump between a proxy-stream reader and a
/// proxy-stream writer: the datagram in flight, the address it is for
/// (`None` between datagrams), and the running byte count.
///
/// The surrounding loop reads a datagram and its address into the
/// buffer, reports the read with `on_read`, then writes the buffer
/// out, reporting progress with `on_written`; the address is not
/// dropped until the whole datagram for it has been written.
///
/// End of stream is reported explicitly: `on_read(None)` ends the
/// pump.  An address value — the `Null` placeholder included, which a
/// receive path that does not surface source addresses returns for
/// every datagram — is never itself end of stream; it travels with
/// the datagram to the writer.  A reader whose protocol marks EOF
/// with the `Null` address (the Trojan byte-stream deframer) has its
/// driver translate that marker to `on_read(None)`.
pub struct CopyUdpState {
    buf: UdpRelayBuffer,
    addr: Option<MixAddrType>,
    amt: u64,
}

impl CopyUdpState {
    pub closed spec fn buf_view(&self) -> UdpRelayBuffer {
        self.buf
    }

    pub closed spec fn addr_view(&self) -> Option<MixAddrType> {
        self.addr
    }

    /// Bytes copied so far.
    pub closed spec fn amt_view(&self) -> u64 {
        self.amt
    }

    pub open spec fn wf(&self) -> bool {
        self.buf_view().wf()
    }

    pub fn new() -> (r: Self)
        ensures
            r.wf(),
            r.buf_view().data() == Seq::<u8>::empty(),
            r.buf_view().cur() == 0,
            r.addr_view() is None,
            r.amt_view() == 0,
    {
        CopyUdpState { buf: UdpRelayBuffer::new(), addr: None, amt: 0 }
    }

    /// The datagram buffer, for the reader to fill and the writer to
    /// drain.
    pub fn buffer_mut(&mut self) -> (r: &mut UdpRelayBuffer)
        ensures
            *r == old(self).buf_view(),
            final(self).buf_view() == *final(r),
            final(self).addr_view() == old(self).addr_view(),
            final(self).amt_view() == old(self).amt_view(),
    {
        &mut self.buf
    }

    pub fn amt(&self) -> (r: u64)
        ensures
            r == self.amt_view(),
    {
        self.amt
    }

    pub fn has_addr(&self) -> (r: bool)
        ensures
            r == (self.addr_view() is Some),
    {
        match self.addr {
            Some(_) => true,
            None => false,
        }
    }

    /// The address the datagram in flight is for.
    pub fn addr_ref(&self) -> (r: &MixAddrType)
        requires
            self.addr_view() is Some,
        ensures
            Some(*r) == self.addr_view(),
    {
        match &self.addr {
            Some(a) => a,
            None => vstd::pervasive::unreached(),
        }
    }

    /// Record the outcome of one read.  `None` is end of stream: the
    /// pump is done and `true` says so.  `Some(a)` is a datagram for
    /// `a` — whatever `a` is, the `Null` placeholder included — and
    /// the pump carries on.
    pub fn on_read(&mut self, new_addr: Option<MixAddrType>) -> (done: bool)
        requires
            old(self).addr_view() is None,
        ensures
            final(self).wf() == old(self).wf(),
            final(self).buf_view() == old(self).buf_view(),
            final(self).amt_view() == old(self).amt_view(),
            new_addr is None ==> done && final(self).addr_view() is None,
            new_addr matches Some(a) ==> !done && final(self).addr_view() == Some(a),
    {
        match new_addr {
            None => true,
            Some(a) => {
                self.addr = Some(a);
                false
            },
        }
    }

    /// Record that `n` bytes of the datagram in flight were written.
    /// When the buffer is drained the address is dropped and the
    /// buffer reset, ready for the next datagram; the byte count grows
    /// by `n` either way.
    pub fn on_written(&mut self, n: usize)
        requires
            old(self).wf(),
            old(self).addr_view() is Some,
            n <= old(self).buf_view().chunk_view().len(),
            old(self).amt_view() + n <= u64::MAX,
        ensures
            final(self).wf(),
            final(self).amt_view() == old(self).amt_view() + n,
            n < old(self).buf_view().chunk_view().len() ==> {
                &&& final(self).addr_view() == old(self).addr_view()
                &&& final(self).buf_view().data() == old(self).buf_view().data()
                &&& final(self).buf_view().chunk_view() == old(
                    self,
                ).buf_view().chunk_view().skip(n as int)
            },
            n == old(self).buf_view().chunk_view().len() ==> {
                &&& final(self).addr_view() is None
                &&& final(self).buf_view().data() == Seq::<u8>::empty()
                &&& final(self).buf_view().cur() == 0
            },
    {
        self.buf.advance(n);
        if !self.buf.has_remaining() {
            self.addr = None;
            self.buf.reset();
        }
        self.amt = self.amt + (n as u64);
    }
}

} // verus!

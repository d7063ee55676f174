use vstd::prelude::*;

use crate::mix_addr::{MixAddrType, MixAddrView};

verus! {

/// A resolved socket address as plain values.
#[derive(Debug, Clone, Copy, PartialEq, Eq)]
pub enum SocketAddrRepr {
    V4([u8; 4], u16),
    V6([u16; 8], u16),
}

/// Where the send half of the server UDP stream stands with the
/// destination of the datagram in flight.
#[derive(Debug, Clone, Copy)]
pub enum ResolveAddr {
    /// A hostname lookup is running (the task handle lives with the
    /// I/O loop).
    Pending,
    /// The destination is known; `send_to` may go ahead.
    Ready(SocketAddrRepr),
    /// No datagram in flight.
    Idle,
}

/// What the I/O loop must do next for a datagram.
pub enum SendStep {
    /// Send to this address now.
    SendTo(SocketAddrRepr),
    /// Spawn a blocking lookup of this hostname and port.
    Lookup(Vec<u8>, u16),
}

/// State machine of [`ServerUdpStream`]'s send half: per datagram it
/// goes `Idle` → (`Ready` | `Pending` → `Ready`) → `Idle`; a lookup
/// that resolves to nothing drops the datagram and returns to `Idle`.
pub struct ServerUdpSendState {
    addr_task: ResolveAddr,
}

impl ServerUdpSendState {
    pub closed spec fn task(&self) -> ResolveAddr {
        self.addr_task
    }

    pub fn new() -> (r: Self)
        ensures
            r.task() is Idle,
    {
        ServerUdpSendState { addr_task: ResolveAddr::Idle }
    }

    pub fn is_idle(&self) -> (r: bool)
        ensures
            r == (self.task() is Idle),
    {
        match self.addr_task {
            ResolveAddr::Idle => true,
            _ => false,
        }
    }

    pub fn is_pending(&self) -> (r: bool)
        ensures
            r == (self.task() is Pending),
    {
        match self.addr_task {
            ResolveAddr::Pending => true,
            _ => false,
        }
    }

    /// Begin a datagram to `addr`: an IP literal becomes a ready
    /// socket address at once, a hostname asks the I/O loop to start
    /// a lookup.
    pub fn begin(&mut self, addr: &MixAddrType) -> (r: SendStep)
        requires
            old(self).task() is Idle,
            addr@.wf(),
            !addr@.is_null(),
        ensures
            addr@ matches MixAddrView::V4 { ip, port } ==> (r matches SendStep::SendTo(s) && (s
                matches SocketAddrRepr::V4(b, p) && b@ == ip && p == port && final(self).task()
                == ResolveAddr::Ready(s))),
            addr@ matches MixAddrView::V6 { segs, port } ==> (r matches SendStep::SendTo(s) && (s
                matches SocketAddrRepr::V6(b, p) && b@ == segs && p == port && final(self).task()
                == ResolveAddr::Ready(s))),
            addr@ matches MixAddrView::Hostname { name, port } ==> (r matches SendStep::Lookup(
                n,
                p,
            ) && n@ == name && p == port && final(self).task() is Pending),
    {
        match addr {
            MixAddrType::V4((ip, port)) => {
                let s = SocketAddrRepr::V4(*ip, *port);
                self.addr_task = ResolveAddr::Ready(s);
                SendStep::SendTo(s)
            },
            MixAddrType::V6((segs, port)) => {
                let s = SocketAddrRepr::V6(*segs, *port);
                self.addr_task = ResolveAddr::Ready(s);
                SendStep::SendTo(s)
            },
            MixAddrType::Hostname((name, port)) => {
                self.addr_task = ResolveAddr::Pending;
                let mut n: Vec<u8> = Vec::new();
                let mut i: usize = 0;
                while i < name.len()
                    invariant
                        i <= name@.len(),
                        n@ == name@.take(i as int),
                    decreases name@.len() - i,
                {
                    n.push(name[i]);
                    i = i + 1;
                    proof {
                        assert(n@ =~= name@.take(i as int));
                    }
                }
                proof {
                    assert(n@ =~= name@);
                }
                SendStep::Lookup(n, *port)
            },
            MixAddrType::Null => vstd::pervasive::unreached(),
        }
    }

    /// The lookup finished; `first` is the first address it yielded.
    /// An empty result drops the datagram (`true` says so) and the
    /// machine goes back to `Idle`.
    pub fn lookup_done(&mut self, first: Option<SocketAddrRepr>) -> (dropped: bool)
        requires
            old(self).task() is Pending,
        ensures
            first matches Some(a) ==> !dropped && final(self).task() == ResolveAddr::Ready(a),
            first is None ==> dropped && final(self).task() is Idle,
    {
        match first {
            Some(a) => {
                self.addr_task = ResolveAddr::Ready(a);
                false
            },
            None => {
                self.addr_task = ResolveAddr::Idle;
                true
            },
        }
    }

    /// The ready address, for the actual `send_to`.
    pub fn ready_addr(&self) -> (r: SocketAddrRepr)
        requires
            self.task() is Ready,
        ensures
            self.task() matches ResolveAddr::Ready(a) && a == r,
    {
        match self.addr_task {
            ResolveAddr::Ready(a) => a,
            _ => vstd::pervasive::unreached(),
        }
    }

    /// The send went through (or failed for good): the datagram is
    /// finished either way and the machine returns to `Idle`.
    pub fn sent(&mut self)
        requires
            old(self).task() is Ready,
        ensures
            final(self).task() is Idle,
    {
        self.addr_task = ResolveAddr::Idle;
    }
}

} // verus!

use vstd::prelude::*;

use crate::error::ParserError;

verus! {

/// The TLS version a handshake turned out to use, as far as the
/// leave-TLS negotiation cares.
#[derive(Debug, Clone, Copy, PartialEq, Eq, Structural)]
pub enum TlsVersion {
    Tls12,
    Tls13,
}

/// Which peer a byte came from: `Inbound` is the client-facing side,
/// `Outbound` the target-facing side.
#[derive(Debug, Clone, Copy, PartialEq, Eq, Structural)]
pub enum Direction {
    Inbound,
    Outbound,
}

/// Which directions have produced an application-data (`0x17`) record
/// so far.
#[derive(Debug, Clone, Copy, PartialEq, Eq, Structural)]
pub enum Seen0x17 {
    Neither,
    FromInbound,
    FromOutbound,
    BothDirections,
}

/// The transition table of [`Seen0x17`]: a direction that has already
/// been seen changes nothing, the second direction completes the pair,
/// and `BothDirections` is final.
pub open spec fn witness_spec(s: Seen0x17, dir: Direction) -> Seen0x17 {
    match (s, dir) {
        (Seen0x17::Neither, Direction::Inbound) => Seen0x17::FromInbound,
        (Seen0x17::Neither, Direction::Outbound) => Seen0x17::FromOutbound,
        (Seen0x17::FromInbound, Direction::Outbound) => Seen0x17::BothDirections,
        (Seen0x17::FromOutbound, Direction::Inbound) => Seen0x17::BothDirections,
        (s2, _) => s2,
    }
}

impl Seen0x17 {
    /// Record that direction `dir` has produced a `0x17` record.
    pub fn witness(&mut self, dir: Direction)
        ensures
            *final(self) == witness_spec(*old(self), dir),
    {
        *self = match (*self, dir) {
            (Seen0x17::Neither, Direction::Inbound) => Seen0x17::FromInbound,
            (Seen0x17::Neither, Direction::Outbound) => Seen0x17::FromOutbound,
            (Seen0x17::FromInbound, Direction::Outbound) => Seen0x17::BothDirections,
            (Seen0x17::FromOutbound, Direction::Inbound) => Seen0x17::BothDirections,
            (s, _) => s,
        };
    }
}

/// Law: `BothDirections` is absorbing — once both directions have been
/// seen, no further witness changes the state.
pub proof fn lemma_seen_0x17_both_is_final(dir: Direction)
    ensures
        witness_spec(Seen0x17::BothDirections, dir) == Seen0x17::BothDirections,
{
}

/// The length declared in a two-byte big-endian field.
pub open spec fn spec_extract_len(s: Seq<u8>) -> int {
    s[0] * 256 + s[1]
}

/// Payload length of the TLS record starting at `i`
/// (`type(1) | version(2) | length(2) | payload`).
pub open spec fn record_payload_len(s: Seq<u8>, i: int) -> int {
    s[i + 3] * 256 + s[i + 4]
}

/// Total length of the TLS record starting at `i`, header included.
pub open spec fn record_total_len(s: Seq<u8>, i: int) -> int {
    5 + record_payload_len(s, i)
}

/// The record starting at `i` lies completely inside `s`.
pub open spec fn record_complete_at(s: Seq<u8>, i: int) -> bool {
    &&& i + 5 <= s.len()
    &&& i + record_total_len(s, i) <= s.len()
}

/// `s` is exactly a concatenation of complete TLS records.
pub open spec fn is_record_chain(s: Seq<u8>) -> bool
    decreases s.len(),
{
    if s.len() == 0 {
        true
    } else {
        &&& s.len() >= 5
        &&& record_total_len(s, 0) <= s.len()
        &&& is_record_chain(s.skip(record_total_len(s, 0)))
    }
}

/// `s` is one complete TLS record and nothing more.
pub open spec fn is_single_record(s: Seq<u8>) -> bool {
    s.len() >= 5 && s.len() == record_total_len(s, 0)
}

/// A chain of records followed by one more record is again a chain.
pub proof fn lemma_record_chain_append(a: Seq<u8>, r: Seq<u8>)
    requires
        is_record_chain(a),
        is_single_record(r),
    ensures
        is_record_chain(a + r),
    decreases a.len(),
{
    if a.len() == 0 {
        assert(a + r =~= r);
        assert(r.skip(record_total_len(r, 0)) =~= Seq::<u8>::empty());
        assert(is_record_chain(Seq::<u8>::empty()));
        assert(is_record_chain(r));
        assert(is_record_chain(a + r));
    } else {
        let t = record_total_len(a, 0);
        assert(a.len() >= 5);
        assert(t <= a.len());
        assert(is_record_chain(a.skip(t)));
        assert((a + r).skip(t) =~= a.skip(t) + r);
        lemma_record_chain_append(a.skip(t), r);
        assert(is_record_chain((a + r).skip(t)));
        assert(record_total_len(a + r, 0) == t);
        assert(is_record_chain(a + r));
    }
}

/// Cursor-tracked byte buffer for TLS record inspection.  Bytes before
/// the cursor have been checked to form complete TLS records and are
/// ready to forward; bytes after it are still unparsed.
#[derive(Debug)]
pub struct TlsRelayBuffer {
    inner: Vec<u8>,
    /// read cursor
    cursor: usize,
}

impl TlsRelayBuffer {
    /// Every byte currently in the buffer.
    pub closed spec fn data(&self) -> Seq<u8> {
        self.inner@
    }

    /// The checked cursor.
    pub closed spec fn cur(&self) -> int {
        self.cursor as int
    }

    /// The checked prefix: complete records, ready to forward.
    pub open spec fn checked_view(&self) -> Seq<u8> {
        self.data().take(self.cur())
    }

    /// The unparsed tail.
    pub open spec fn unchecked_view(&self) -> Seq<u8> {
        self.data().skip(self.cur())
    }

    /// Invariant: the cursor stays inside the data and everything
    /// before it is a concatenation of complete TLS records.
    pub closed spec fn wf(&self) -> bool {
        &&& self.cursor <= self.inner.len()
        &&& is_record_chain(self.checked_view())
    }

    pub fn new() -> (r: Self)
        ensures
            r.wf(),
            r.data() == Seq::<u8>::empty(),
            r.cur() == 0,
    {
        TlsRelayBuffer { inner: Vec::with_capacity(2048), cursor: 0 }
    }

    pub fn len(&self) -> (r: usize)
        ensures
            r == self.data().len(),
    {
        self.inner.len()
    }

    /// Forget everything.
    pub fn reset(&mut self)
        ensures
            final(self).wf(),
            final(self).data() == Seq::<u8>::empty(),
            final(self).cur() == 0,
    {
        self.inner.clear();
        self.cursor = 0;
    }

    /// Append freshly read bytes after the unparsed tail.
    pub fn extend_from_slice(&mut self, src: &[u8])
        requires
            old(self).data().len() + src@.len() <= usize::MAX,
        ensures
            final(self).data() == old(self).data() + src@,
            final(self).cur() == old(self).cur(),
            old(self).wf() ==> final(self).wf(),
    {
        let mut i: usize = 0;
        while i < src.len()
            invariant
                i <= src@.len(),
                self.inner@ == old(self).inner@ + src@.take(i as int),
                self.cursor == old(self).cursor,
            decreases src@.len() - i,
        {
            self.inner.push(src[i]);
            i = i + 1;
            proof {
                assert(self.inner@ =~= old(self).inner@ + src@.take(i as int));
            }
        }
        proof {
            assert(self.inner@ =~= old(self).inner@ + src@);
            if old(self).wf() {
                assert(self.checked_view() =~= old(self).checked_view());
            }
        }
    }

    /// The checked records, as a slice.
    pub fn checked_packets(&self) -> (r: &[u8])
        requires
            self.wf(),
        ensures
            r@ == self.checked_view(),
    {
        if self.cursor < self.inner.len() {
            let pair = self.inner.as_slice().split_at(self.cursor);
            pair.0
        } else {
            proof {
                assert(self.data().take(self.cur()) =~= self.data());
            }
            self.inner.as_slice()
        }
    }

    /// Drop the checked prefix; the unparsed tail moves to the origin
    /// and the cursor returns to zero.
    pub fn pop_checked_packets(&mut self)
        requires
            old(self).wf(),
        ensures
            final(self).wf(),
            final(self).data() == old(self).unchecked_view(),
            final(self).cur() == 0,
    {
        let n = self.inner.len() - self.cursor;
        let mut i: usize = 0;
        while i < n
            invariant
                i <= n,
                n == old(self).inner@.len() - old(self).cursor,
                self.cursor == old(self).cursor,
                self.inner@.len() == old(self).inner@.len(),
                forall|j: int|
                    0 <= j < i ==> self.inner@[j] == old(self).inner@[old(self).cursor + j],
                forall|j: int|
                    i <= j < self.inner@.len() ==> self.inner@[j] == old(self).inner@[j],
            decreases n - i,
        {
            let cur_len = self.inner.len();
            assert(self.cursor + i < cur_len);
            let b = self.inner[self.cursor + i];
            self.inner.set(i, b);
            i = i + 1;
        }
        self.inner.truncate(n);
        self.cursor = 0;
        proof {
            assert(self.inner@ =~= old(self).inner@.skip(old(self).cursor as int));
        }
    }

    /// Take the checked records out of the buffer, or `None` when
    /// nothing is checked yet.  Every byte of the buffer survives:
    /// what is returned and what stays partition the old contents.
    pub fn take_checked(&mut self) -> (r: Option<Vec<u8>>)
        requires
            old(self).wf(),
        ensures
            final(self).wf(),
            r matches Some(v) ==> {
                &&& v@ == old(self).checked_view()
                &&& v@.len() > 0
                &&& final(self).data() == old(self).unchecked_view()
                &&& final(self).cur() == 0
            },
            r is None ==> {
                &&& old(self).checked_view().len() == 0
                &&& *final(self) == *old(self)
            },
    {
        if self.cursor == 0 {
            proof {
                assert(self.checked_view() =~= Seq::<u8>::empty());
            }
            return None;
        }
        let mut v: Vec<u8> = Vec::new();
        let mut i: usize = 0;
        let end = if self.cursor < self.inner.len() {
            self.cursor
        } else {
            self.inner.len()
        };
        while i < end
            invariant
                i <= end,
                end <= self.inner@.len(),
                v@ == self.inner@.take(end as int).take(i as int),
                *self == *old(self),
            decreases end - i,
        {
            let b = self.inner[i];
            v.push(b);
            proof {
                assert(v@ =~= self.inner@.take(end as int).take(i + 1));
            }
            i = i + 1;
        }
        proof {
            assert(v@ =~= old(self).checked_view());
        }
        self.pop_checked_packets();
        Some(v)
    }

    /// Take every byte out of the buffer, checked or not, and reset
    /// it.  Used when the record layer is being abandoned and the raw
    /// bytes are relayed as they are.
    pub fn take_all(&mut self) -> (r: Vec<u8>)
        ensures
            r@ == old(self).data(),
            final(self).wf(),
            final(self).data() == Seq::<u8>::empty(),
            final(self).cur() == 0,
    {
        let mut v: Vec<u8> = Vec::new();
        let mut i: usize = 0;
        let n = self.inner.len();
        while i < n
            invariant
                i <= n,
                n == self.inner@.len(),
                v@ == self.inner@.take(i as int),
                *self == *old(self),
            decreases n - i,
        {
            let b = self.inner[i];
            v.push(b);
            proof {
                assert(v@ =~= self.inner@.take(i + 1));
            }
            i = i + 1;
        }
        proof {
            assert(v@ =~= old(self).data());
        }
        self.inner.clear();
        self.cursor = 0;
        v
    }

    /// What `check_client_hello` decides about the buffer contents:
    /// fewer than five bytes is `Incomplete`; a wrong
    /// `type | version` prefix, or a buffer that is not exactly one
    /// record, is `Invalid` (not TLS 1.2/1.3).
    pub open spec fn spec_client_hello(s: Seq<u8>) -> Result<(), ParserError> {
        if s.len() < 5 {
            Err(ParserError::Incomplete)
        } else if s[0] != 0x16 || s[1] != 0x03 || s[2] != 0x01 {
            Err(ParserError::Invalid)
        } else if 5 + spec_extract_len(s.skip(3)) != s.len() {
            Err(ParserError::Invalid)
        } else {
            Ok(())
        }
    }

    /// Protocol sniff for the very first packet: the buffer must hold
    /// exactly one TLS handshake record announcing TLS 1.0+ (`16 03 01`).
    /// On success the whole buffer counts as checked.
    pub fn check_client_hello(&mut self) -> (r: Result<(), ParserError>)
        requires
            old(self).wf(),
        ensures
            final(self).wf(),
            final(self).data() == old(self).data(),
            r == Self::spec_client_hello(old(self).data()),
            r is Ok ==> final(self).cur() == final(self).data().len(),
            r is Err ==> final(self).cur() == old(self).cur(),
    {
        if self.inner.len() < 5 {
            return Err(ParserError::Incomplete);
        }
        if !(self.inner[0] == 0x16 && self.inner[1] == 0x03 && self.inner[2] == 0x01) {
            // Not tls 1.2/1.3
            return Err(ParserError::Invalid);
        }
        let l = extract_len_at(&self.inner, 3);
        if 5 + l != self.inner.len() {
            // Not tls 1.2/1.3
            return Err(ParserError::Invalid);
        }
        self.cursor = self.inner.len();
        proof {
            let s = self.data();
            assert(is_record_chain(self.checked_view())) by {
                assert(self.checked_view() =~= s);
                assert(is_single_record(s));
                lemma_record_chain_append(Seq::<u8>::empty(), s);
                assert(Seq::<u8>::empty() + s =~= s);
            }
        }
        Ok(())
    }

    /// Validate the single record that starts at the cursor: on
    /// success the cursor moves past it and its type byte is returned;
    /// a record that is not yet fully buffered leaves the cursor where
    /// it was and yields `Incomplete`.
    pub fn check_tls_packet(&mut self) -> (r: Result<u8, ParserError>)
        requires
            old(self).wf(),
        ensures
            final(self).wf(),
            final(self).data() == old(self).data(),
            record_complete_at(old(self).data(), old(self).cur()) ==> {
                &&& r == Ok::<u8, ParserError>(old(self).data()[old(self).cur()])
                &&& final(self).cur() == old(self).cur() + record_total_len(
                    old(self).data(),
                    old(self).cur(),
                )
            },
            !record_complete_at(old(self).data(), old(self).cur()) ==> {
                &&& r == Err::<u8, ParserError>(ParserError::Incomplete)
                &&& final(self).cur() == old(self).cur()
            },
    {
        if self.inner.len() - self.cursor < 5 {
            return Err(ParserError::Incomplete);
        }
        let packet_type = self.inner[self.cursor];
        let l = extract_len_at(&self.inner, self.cursor + 3);
        if l > self.inner.len() - self.cursor - 5 {
            return Err(ParserError::Incomplete);
        }
        let ghost old_cur = self.cur();
        self.cursor = self.cursor + 5 + l;
        proof {
            let s = self.data();
            let t = record_total_len(s, old_cur);
            assert(is_record_chain(self.checked_view())) by {
                let rec = s.subrange(old_cur, old_cur + t);
                assert(is_single_record(rec));
                lemma_record_chain_append(s.take(old_cur), rec);
                assert(s.take(old_cur) + rec =~= s.take(old_cur + t));
            }
        }
        Ok(packet_type)
    }
}

/// What scanning for key packets from position `cur` yields: the
/// result of the scan, the final cursor, and the final `Seen0x17`
/// state.  Per record type: `0x17` is witnessed, and ends the scan
/// with `Tls12` when it makes the state `FromInbound` (the first
/// application data, coming from the client); `0x14` ends the scan
/// with `Tls13` when the server has already sent application data
/// (`FromOutbound`); `0xff` — the out-of-band leave-TLS command —
/// ends it with `Tls12`; `0x15` and `0x16` are skipped; anything else
/// is `Invalid`.  A record that is not fully buffered stops the scan
/// with `Incomplete`.
pub open spec fn spec_find_key_packets(
    s: Seq<u8>,
    cur: int,
    seen: Seen0x17,
    dir: Direction,
) -> (Result<TlsVersion, ParserError>, int, Seen0x17)
    decreases s.len() - cur,
{
    if !(0 <= cur && cur < s.len()) {
        (Err(ParserError::Incomplete), cur, seen)
    } else if s[cur] == 0x17 {
        let seen2 = witness_spec(seen, dir);
        if seen2 is FromInbound {
            (Ok(TlsVersion::Tls12), cur, seen2)
        } else if record_complete_at(s, cur) {
            spec_find_key_packets(s, cur + record_total_len(s, cur), seen2, dir)
        } else {
            (Err(ParserError::Incomplete), cur, seen2)
        }
    } else if s[cur] == 0x14 {
        if seen is FromOutbound {
            (Ok(TlsVersion::Tls13), cur, seen)
        } else if record_complete_at(s, cur) {
            spec_find_key_packets(s, cur + record_total_len(s, cur), seen, dir)
        } else {
            (Err(ParserError::Incomplete), cur, seen)
        }
    } else if s[cur] == 0xff {
        (Ok(TlsVersion::Tls12), cur, seen)
    } else if s[cur] == 0x15 || s[cur] == 0x16 {
        if record_complete_at(s, cur) {
            spec_find_key_packets(s, cur + record_total_len(s, cur), seen, dir)
        } else {
            (Err(ParserError::Incomplete), cur, seen)
        }
    } else {
        (Err(ParserError::Invalid), cur, seen)
    }
}

impl TlsRelayBuffer {
    /// Scan the unparsed tail for the records that decide the
    /// leave-TLS negotiation, advancing the cursor past everything
    /// skipped; see [`spec_find_key_packets`] for the exact outcome.
    pub fn find_key_packets(&mut self, seen_0x17: &mut Seen0x17, dir: Direction) -> (r: Result<
        TlsVersion,
        ParserError,
    >)
        requires
            old(self).wf(),
        ensures
            final(self).wf(),
            final(self).data() == old(self).data(),
            ({
                let (sr, scur, sseen) = spec_find_key_packets(
                    old(self).data(),
                    old(self).cur(),
                    *old(seen_0x17),
                    dir,
                );
                r == sr && final(self).cur() == scur && *final(seen_0x17) == sseen
            }),
    {
        loop
            invariant
                self.wf(),
                self.data() == old(self).data(),
                spec_find_key_packets(self.data(), self.cur(), *seen_0x17, dir)
                    == spec_find_key_packets(
                    old(self).data(),
                    old(self).cur(),
                    *old(seen_0x17),
                    dir,
                ),
            decreases self.data().len() - self.cur(),
        {
            if self.cursor >= self.inner.len() {
                return Err(ParserError::Incomplete);
            }
            let t = self.inner[self.cursor];
            if t == 0x17 {
                seen_0x17.witness(dir);
                match *seen_0x17 {
                    Seen0x17::FromInbound => {
                        return Ok(TlsVersion::Tls12);
                    },
                    _ => {},
                }
                match self.check_tls_packet() {
                    Ok(_) => {},
                    Err(e) => {
                        return Err(e);
                    },
                }
            } else if t == 0x14 {
                match *seen_0x17 {
                    Seen0x17::FromOutbound => {
                        return Ok(TlsVersion::Tls13);
                    },
                    _ => {},
                }
                match self.check_tls_packet() {
                    Ok(_) => {},
                    Err(e) => {
                        return Err(e);
                    },
                }
            } else if t == 0xff {
                return Ok(TlsVersion::Tls12);
            } else if t == 0x15 || t == 0x16 {
                match self.check_tls_packet() {
                    Ok(_) => {},
                    Err(e) => {
                        return Err(e);
                    },
                }
            } else {
                return Err(ParserError::Invalid);
            }
        }
    }
}

/// The two-byte big-endian length field at position `at`.
fn extract_len_at(buf: &Vec<u8>, at: usize) -> (r: usize)
    requires
        at + 2 <= buf@.len(),
    ensures
        r == spec_extract_len(buf@.skip(at as int)),
        r <= 65535,
{
    let n = buf.len();
    assert(at + 2 <= n);
    (buf[at] as usize) * 256 + (buf[at + 1] as usize)
}

/// The two-byte big-endian length field at the front of `buf`.
pub fn extract_len(buf: &[u8]) -> (r: usize)
    requires
        buf@.len() >= 2,
    ensures
        r == spec_extract_len(buf@),
        r <= 65535,
{
    proof {
        assert(buf@.skip(0) =~= buf@);
    }
    (buf[0] as usize) * 256 + (buf[1] as usize)
}

/// Law: in a well-formed buffer the checked region consists of
/// complete TLS records only, it never outgrows the bytes observed,
/// and together with the unparsed tail it accounts for every byte.
pub proof fn lemma_checked_packets_are_records(b: TlsRelayBuffer)
    requires
        b.wf(),
    ensures
        is_record_chain(b.checked_view()),
        b.checked_view().len() <= b.data().len(),
        b.data() == b.checked_view() + b.unchecked_view(),
{
    assert(b.data() =~= b.checked_view() + b.unchecked_view());
}

} // verus!

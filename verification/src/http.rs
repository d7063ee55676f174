use vstd::prelude::*;

use crate::args::{spec_lower, spec_lower_byte};
use crate::error::ParserError;
use crate::mix_addr::port_be;

verus! {

/// The ASCII bytes of `"GET "`.
pub open spec fn spec_get_prefix() -> Seq<u8> {
    seq![71u8, 69u8, 84u8, 32u8]
}

/// The ASCII bytes of `"CONNECT "`.
pub open spec fn spec_connect_prefix() -> Seq<u8> {
    seq![67u8, 79u8, 78u8, 78u8, 69u8, 67u8, 84u8, 32u8]
}

/// The ASCII bytes of `"http://"`.
pub open spec fn spec_http_prefix() -> Seq<u8> {
    seq![104u8, 116u8, 116u8, 112u8, 58u8, 47u8, 47u8]
}

/// The ASCII bytes of `"\r\n\r\n"`.
pub open spec fn spec_crlf2() -> Seq<u8> {
    seq![13u8, 10u8, 13u8, 10u8]
}

/// The ASCII bytes of `"GET / HTTP/1.1\r\nHost: "`.
pub open spec fn spec_get_header0() -> Seq<u8> {
    seq![
        71u8, 69u8, 84u8, 32u8, 47u8, 32u8, 72u8, 84u8, 84u8, 80u8, 47u8, 49u8, 46u8, 49u8,
        13u8, 10u8, 72u8, 111u8, 115u8, 116u8, 58u8, 32u8,
    ]
}

/// The ASCII bytes of `"\r\nConnection: keep-alive\r\n\r\n"`.
pub open spec fn spec_get_header1() -> Seq<u8> {
    seq![
        13u8, 10u8, 67u8, 111u8, 110u8, 110u8, 101u8, 99u8, 116u8, 105u8, 111u8, 110u8, 58u8,
        32u8, 107u8, 101u8, 101u8, 112u8, 45u8, 97u8, 108u8, 105u8, 118u8, 101u8, 13u8, 10u8,
        13u8, 10u8,
    ]
}

/// What the first request word says: `Ok((is_https, cursor))` after a
/// `GET ` or `CONNECT ` prefix, `Incomplete` while the buffer is still
/// too short to tell, `Invalid` for anything else.
pub open spec fn spec_stream_type(s: Seq<u8>) -> Result<(bool, int), ParserError> {
    if s.len() < 4 {
        Err(ParserError::Incomplete)
    } else if s.take(4) == spec_get_prefix() {
        Ok((false, 4))
    } else if s.len() < 8 {
        Err(ParserError::Incomplete)
    } else if s.take(8) == spec_connect_prefix() {
        Ok((true, 8))
    } else {
        Err(ParserError::Invalid)
    }
}

/// First position at or after `i` that is not a space.
pub open spec fn skip_spaces(s: Seq<u8>, i: int) -> int
    decreases s.len() - i,
{
    if 0 <= i < s.len() && s[i] == 32 {
        skip_spaces(s, i + 1)
    } else {
        i
    }
}

/// First position at or after `i` holding a space or `/` (or the end).
pub open spec fn find_host_end(s: Seq<u8>, i: int) -> int
    decreases s.len() - i,
{
    if 0 <= i < s.len() && s[i] != 32 && s[i] != 47 {
        find_host_end(s, i + 1)
    } else {
        i
    }
}

/// Highest position in `[start, j]` holding a colon, `end` if none.
pub open spec fn rfind_colon(s: Seq<u8>, start: int, j: int, end: int) -> int
    decreases j - start + 1,
{
    if j < start {
        end
    } else if s[j] == 58 {
        j
    } else {
        rfind_colon(s, start, j - 1, end)
    }
}

/// Where the colon search lands: at `end`, or on a colon in
/// `[start, j]`.
pub proof fn lemma_rfind_colon_bounds(s: Seq<u8>, start: int, j: int, end: int)
    ensures
        ({
            let r = rfind_colon(s, start, j, end);
            r == end || (start <= r <= j && s[r] == 58)
        }),
    decreases j - start + 1,
{
    if j >= start && s[j] != 58 {
        lemma_rfind_colon_bounds(s, start, j - 1, end);
    }
}

/// Decimal port digits in `s[i..end]` folded onto `acc`; `None` on a
/// non-digit or a value beyond 65535.
pub open spec fn spec_parse_port(s: Seq<u8>, i: int, end: int, acc: int) -> Option<int>
    decreases end - i,
{
    if i >= end {
        Some(acc)
    } else if 48 <= s[i] <= 57 && acc * 10 + (s[i] - 48) <= 65535 {
        spec_parse_port(s, i + 1, end, acc * 10 + (s[i] - 48))
    } else {
        None
    }
}

/// Outcome of the host/port scan, together with where the read cursor
/// comes to rest.
pub enum HostParse {
    Done { host: Seq<u8>, port: u16, cur: int },
    Fail { err: ParserError, cur: int },
}

/// The host/port scan, starting at `cur0`: leading spaces are
/// skipped; for plain-HTTP requests a `http://` scheme is stripped
/// (and a buffer too short to hold one is `Incomplete`); the host
/// runs to the first space or `/`, which must be in the buffer; a
/// trailing `:port` is split off, required for `CONNECT` and
/// defaulting to 80 for plain HTTP; an empty or malformed port is
/// `Invalid`.
pub open spec fn spec_set_host(s: Seq<u8>, cur0: int, https: bool) -> HostParse {
    let i0 = skip_spaces(s, cur0);
    if !https && !(i0 + 7 < s.len()) {
        HostParse::Fail { err: ParserError::Incomplete, cur: i0 }
    } else {
        let i = if !https && spec_lower(s.subrange(i0, i0 + 7)) == spec_http_prefix() {
            i0 + 7
        } else {
            i0
        };
        let start = i;
        let end = find_host_end(s, start);
        if end == s.len() {
            HostParse::Fail { err: ParserError::Incomplete, cur: i }
        } else {
            let pidx = rfind_colon(s, start, end - 1, end);
            if pidx + 1 == end {
                HostParse::Fail { err: ParserError::Invalid, cur: i }
            } else if pidx == end {
                if !https {
                    HostParse::Done { host: s.subrange(start, end), port: 80, cur: i }
                } else {
                    HostParse::Fail { err: ParserError::Invalid, cur: i }
                }
            } else {
                match spec_parse_port(s, pidx + 1, end, 0) {
                    Some(p) => HostParse::Done {
                        host: s.subrange(start, pidx),
                        port: p as u16,
                        cur: i,
                    },
                    None => HostParse::Fail { err: ParserError::Invalid, cur: i },
                }
            }
        }
    }
}

/// Copy `buf[from..to]` into a fresh vector.
fn copy_range(buf: &Vec<u8>, from: usize, to: usize) -> (r: Vec<u8>)
    requires
        from <= to <= buf@.len(),
    ensures
        r@ == buf@.subrange(from as int, to as int),
{
    let mut v: Vec<u8> = Vec::new();
    let mut i: usize = from;
    while i < to
        invariant
            from <= i <= to <= buf@.len(),
            v@ == buf@.subrange(from as int, i as int),
        decreases to - i,
    {
        v.push(buf[i]);
        i = i + 1;
        proof {
            assert(v@ =~= buf@.subrange(from as int, i as int));
        }
    }
    v
}

/// ASCII-lowercase one byte.
fn lower_byte(b: u8) -> (r: u8)
    ensures
        r == spec_lower_byte(b),
{
    if 65 <= b && b <= 90 {
        b + 32
    } else {
        b
    }
}

/// The destination a local HTTP request names: hostname bytes, port,
/// and whether the request was a `CONNECT` (HTTPS tunnel) or a plain
/// `GET`.  `cursor` tracks how far the request line has been read
/// across successive `parse` calls.
pub struct Target {
    is_https: bool,
    host: Vec<u8>,
    port: u16,
    cursor: usize,
}

impl Target {
    pub closed spec fn https_view(&self) -> bool {
        self.is_https
    }

    pub closed spec fn host_view(&self) -> Seq<u8> {
        self.host@
    }

    pub closed spec fn port_view(&self) -> u16 {
        self.port
    }

    pub closed spec fn cursor_view(&self) -> int {
        self.cursor as int
    }

    pub fn new() -> (r: Self)
        ensures
            !r.https_view(),
            r.host_view() == Seq::<u8>::empty(),
            r.port_view() == 0,
            r.cursor_view() == 0,
    {
        Target { is_https: false, host: Vec::new(), port: 0, cursor: 0 }
    }

    pub fn is_https(&self) -> (r: bool)
        ensures
            r == self.https_view(),
    {
        self.is_https
    }

    pub fn host(&self) -> (r: &Vec<u8>)
        ensures
            r@ == self.host_view(),
    {
        &self.host
    }

    pub fn port(&self) -> (r: u16)
        ensures
            r == self.port_view(),
    {
        self.port
    }

    /// How far the request line has been read.
    pub fn cursor(&self) -> (r: usize)
        ensures
            r == self.cursor_view(),
    {
        self.cursor
    }

    /// Classify the request by its first word; see
    /// [`spec_stream_type`].
    pub fn set_stream_type(&mut self, buf: &Vec<u8>) -> (r: Result<(), ParserError>)
        ensures
            final(self).host_view() == old(self).host_view(),
            final(self).port_view() == old(self).port_view(),
            ({
                match spec_stream_type(buf@) {
                    Ok((h, c)) => r is Ok && final(self).https_view() == h && final(self).cursor_view() == c,
                    Err(e) => r == Err::<(), ParserError>(e) && *final(self) == *old(self),
                }
            }),
    {
        if buf.len() < 4 {
            return Err(ParserError::Incomplete);
        }
        if buf[0] == 71 && buf[1] == 69 && buf[2] == 84 && buf[3] == 32 {
            self.is_https = false;
            self.cursor = 4;
            proof {
                assert(buf@.take(4) =~= spec_get_prefix());
            }
            return Ok(());
        }
        proof {
            assert(buf@.take(4) != spec_get_prefix());
        }
        if buf.len() < 8 {
            return Err(ParserError::Incomplete);
        }
        if buf[0] == 67 && buf[1] == 79 && buf[2] == 78 && buf[3] == 78 && buf[4] == 69
            && buf[5] == 67 && buf[6] == 84 && buf[7] == 32 {
            self.is_https = true;
            self.cursor = 8;
            proof {
                assert(buf@.take(8) =~= spec_connect_prefix());
            }
            return Ok(());
        }
        proof {
            assert(buf@.take(8) != spec_connect_prefix());
        }
        Err(ParserError::Invalid)
    }

    /// Scan host and port from the request line; see
    /// [`spec_set_host`].
    #[verifier::loop_isolation(false)]
    pub fn set_host(&mut self, buf: &Vec<u8>) -> (r: Result<(), ParserError>)
        requires
            old(self).cursor_view() <= buf@.len(),
        ensures
            final(self).https_view() == old(self).https_view(),
            ({
                match spec_set_host(buf@, old(self).cursor_view(), old(self).https_view()) {
                    HostParse::Done { host, port, cur } => r is Ok && final(self).host_view()
                        == host && final(self).port_view() == port && final(self).cursor_view()
                        == cur,
                    HostParse::Fail { err, cur } => r == Err::<(), ParserError>(err) && final(self).cursor_view() == cur && final(self).host_view() == old(self).host_view()
                        && final(self).port_view() == old(self).port_view(),
                }
            }),
    {
        let s_len = buf.len();
        while self.cursor < s_len && buf[self.cursor] == 32
            invariant
                s_len == buf@.len(),
                self.cursor <= s_len,
                skip_spaces(buf@, old(self).cursor_view()) == skip_spaces(
                    buf@,
                    self.cursor as int,
                ),
                self.is_https == old(self).is_https,
                self.host == old(self).host,
                self.port == old(self).port,
            decreases buf@.len() - self.cursor,
        {
            self.cursor = self.cursor + 1;
        }
        proof {
            assert(skip_spaces(buf@, self.cursor as int) == self.cursor as int);
        }
        if !self.is_https {
            if s_len < 8 || self.cursor >= s_len - 7 {
                return Err(ParserError::Incomplete);
            }
            let c = self.cursor;
            let m = lower_byte(buf[c]) == 104 && lower_byte(buf[c + 1]) == 116 && lower_byte(buf[c + 2]) == 116 && lower_byte(buf[c + 3]) == 112 && lower_byte(buf[c + 4]) == 58
                && lower_byte(buf[c + 5]) == 47 && lower_byte(buf[c + 6]) == 47;
            proof {
                let sub = buf@.subrange(c as int, c + 7);
                assert(spec_lower(sub).len() == 7);
                assert forall|k: int| 0 <= k < 7 implies spec_lower(sub)[k] == spec_lower_byte(
                    buf@[c + k],
                ) by {
                    assert(sub[k] == buf@[c + k]);
                }
                if m {
                    assert(spec_lower(sub) =~= spec_http_prefix());
                } else {
                    assert(spec_lower(sub) != spec_http_prefix());
                }
            }
            if m {
                self.cursor = self.cursor + 7;
            }
        }
        let start = self.cursor;
        let mut end = start;
        while end < s_len && buf[end] != 32 && buf[end] != 47
            invariant
                s_len == buf@.len(),
                start <= end <= s_len,
                find_host_end(buf@, start as int) == find_host_end(buf@, end as int),
            decreases buf@.len() - end,
        {
            end = end + 1;
        }
        proof {
            assert(find_host_end(buf@, end as int) == end as int);
        }
        if end == s_len {
            return Err(ParserError::Incomplete);
        }
        let ghost target = rfind_colon(buf@, start as int, end - 1, end as int);
        proof {
            lemma_rfind_colon_bounds(buf@, start as int, end - 1, end as int);
        }
        let mut port_idx = end;
        let mut j = end;
        #[verifier::loop_isolation(true)]
        while j > start
            invariant_except_break
                start <= j <= end,
                end < buf@.len(),
                port_idx == end,
                target == rfind_colon(buf@, start as int, j - 1, end as int),
            ensures
                port_idx == target,
            decreases j - start,
        {
            j = j - 1;
            if buf[j] == 58 {
                port_idx = j;
                break ;
            }
        }
        if port_idx + 1 == end {
            return Err(ParserError::Invalid);
        }
        if port_idx == end {
            if !self.is_https {
                self.port = 80;
                self.host = copy_range(buf, start, end);
                return Ok(());
            } else {
                return Err(ParserError::Invalid);
            }
        }
        let mut acc: u32 = 0;
        let mut k = port_idx + 1;
        while k < end
            invariant
                s_len == buf@.len(),
                end < buf@.len(),
                port_idx + 1 <= k <= end,
                acc <= 65535,
                spec_parse_port(buf@, port_idx + 1, end as int, 0) == spec_parse_port(
                    buf@,
                    k as int,
                    end as int,
                    acc as int,
                ),
            decreases end - k,
        {
            let d = buf[k];
            if !(48 <= d && d <= 57) {
                return Err(ParserError::Invalid);
            }
            let a2 = acc * 10 + ((d - 48) as u32);
            if a2 > 65535 {
                return Err(ParserError::Invalid);
            }
            acc = a2;
            k = k + 1;
        }
        self.port = acc as u16;
        self.host = copy_range(buf, start, port_idx);
        Ok(())
    }

    /// Drive the request-line scan over a growing buffer: classify
    /// the request once, scan host and port once, then wait for the
    /// empty line that ends the headers.  While that end is missing,
    /// only the last four bytes are kept and `Incomplete` asks for
    /// more.
    pub fn parse(&mut self, buf: &mut Vec<u8>) -> (r: Result<(), ParserError>)
        requires
            old(self).host_view().len() == 0 ==> old(self).cursor_view() <= old(buf)@.len(),
        ensures
            ({
                let s = old(buf)@;
                let st = if old(self).cursor_view() == 0 {
                    spec_stream_type(s)
                } else {
                    Ok((old(self).https_view(), old(self).cursor_view()))
                };
                match st {
                    Err(e) => r == Err::<(), ParserError>(e) && *final(self) == *old(self)
                        && final(buf)@ == s,
                    Ok((h, c)) => {
                        let hp = if old(self).host_view().len() == 0 {
                            spec_set_host(s, c, h)
                        } else {
                            HostParse::Done {
                                host: old(self).host_view(),
                                port: old(self).port_view(),
                                cur: c,
                            }
                        };
                        match hp {
                            HostParse::Fail { err, cur } => r == Err::<(), ParserError>(err)
                                && final(buf)@ == s && final(self).https_view() == h && final(self).cursor_view() == cur && final(self).host_view() == old(self).host_view() && final(self).port_view() == old(self).port_view(),
                            HostParse::Done { host, port, cur } => {
                                &&& final(self).https_view() == h
                                &&& final(self).cursor_view() == cur
                                &&& final(self).host_view() == host
                                &&& final(self).port_view() == port
                                &&& if s.len() < 4 {
                                    r == Err::<(), ParserError>(ParserError::Incomplete)
                                        && final(buf)@ == s
                                } else if s.subrange(s.len() - 4, s.len() as int)
                                    == spec_crlf2() {
                                    r is Ok && final(buf)@ == s
                                } else {
                                    r == Err::<(), ParserError>(ParserError::Incomplete)
                                        && final(buf)@ == s.subrange(s.len() - 4, s.len() as int)
                                }
                            },
                        }
                    },
                }
            }),
    {
        if self.cursor == 0 {
            match self.set_stream_type(buf) {
                Ok(_) => {},
                Err(e) => {
                    return Err(e);
                },
            }
        }
        if self.host.len() == 0 {
            match self.set_host(buf) {
                Ok(_) => {},
                Err(e) => {
                    return Err(e);
                },
            }
        }
        let n = buf.len();
        if n < 4 {
            return Err(ParserError::Incomplete);
        }
        // `integrity` check
        if buf[n - 4] == 13 && buf[n - 3] == 10 && buf[n - 2] == 13 && buf[n - 1] == 10 {
            proof {
                assert(buf@.subrange(buf@.len() - 4, buf@.len() as int) =~= spec_crlf2());
            }
            return Ok(());
        }
        proof {
            assert(buf@.subrange(buf@.len() - 4, buf@.len() as int) != spec_crlf2());
        }
        let b0 = buf[n - 4];
        let b1 = buf[n - 3];
        let b2 = buf[n - 2];
        let b3 = buf[n - 1];
        buf.set(0, b0);
        buf.set(1, b1);
        buf.set(2, b2);
        buf.set(3, b3);
        buf.truncate(4);
        proof {
            assert(buf@ =~= old(buf)@.subrange(old(buf)@.len() - 4, old(buf)@.len() as int));
        }
        Err(ParserError::Incomplete)
    }

    /// The first Trojan packet for this target:
    /// `PASSWORD_HASH | CRLF | CMD(0x01) | 0x00 | host | port(BE) | CRLF`.
    pub fn packet0(&self, password_hash: &[u8]) -> (r: Vec<u8>)
        requires
            password_hash@.len() + self.host_view().len() + 8 <= usize::MAX,
        ensures
            r@ == password_hash@ + seq![13u8, 10u8, 1u8, 0u8] + self.host_view() + port_be(
                self.port_view(),
            ) + seq![13u8, 10u8],
    {
        let mut v: Vec<u8> = Vec::new();
        let mut i: usize = 0;
        while i < password_hash.len()
            invariant
                i <= password_hash@.len(),
                v@ == password_hash@.take(i as int),
            decreases password_hash@.len() - i,
        {
            v.push(password_hash[i]);
            i = i + 1;
            proof {
                assert(v@ =~= password_hash@.take(i as int));
            }
        }
        v.push(13);
        v.push(10);
        v.push(1);
        v.push(0);
        let mut k: usize = 0;
        while k < self.host.len()
            invariant
                k <= self.host_view().len(),
                v@ == password_hash@.take(password_hash@.len() as int) + seq![
                    13u8,
                    10u8,
                    1u8,
                    0u8,
                ] + self.host_view().take(k as int),
                self.host_view().len() + password_hash@.len() + 8 <= usize::MAX,
            decreases self.host_view().len() - k,
        {
            v.push(self.host[k]);
            k = k + 1;
            proof {
                assert(v@ =~= password_hash@.take(password_hash@.len() as int) + seq![
                    13u8,
                    10u8,
                    1u8,
                    0u8,
                ] + self.host_view().take(k as int));
            }
        }
        v.push((self.port / 256) as u8);
        v.push((self.port % 256) as u8);
        v.push(13);
        v.push(10);
        proof {
            assert(v@ =~= password_hash@ + seq![13u8, 10u8, 1u8, 0u8] + self.host_view()
                + port_be(self.port_view()) + seq![13u8, 10u8]);
        }
        v
    }

    /// A plain-HTTP request rewritten for the tunnel:
    /// `GET / HTTP/1.1 | Host: <host> | Connection: keep-alive`.
    pub fn rewritten_get(&self) -> (r: Vec<u8>)
        requires
            self.host_view().len() + 50 <= usize::MAX,
        ensures
            r@ == spec_get_header0() + self.host_view() + spec_get_header1(),
    {
        let mut v: Vec<u8> = Vec::new();
        let h0: [u8; 22] = [
            71, 69, 84, 32, 47, 32, 72, 84, 84, 80, 47, 49, 46, 49, 13, 10, 72, 111, 115, 116,
            58, 32,
        ];
        let mut i: usize = 0;
        while i < 22
            invariant
                i <= 22,
                h0@ == spec_get_header0(),
                v@ == spec_get_header0().take(i as int),
            decreases 22 - i,
        {
            v.push(h0[i]);
            i = i + 1;
            proof {
                assert(v@ =~= spec_get_header0().take(i as int));
            }
        }
        proof {
            assert(v@ =~= spec_get_header0());
        }
        let mut k: usize = 0;
        while k < self.host.len()
            invariant
                k <= self.host_view().len(),
                self.host_view().len() + 50 <= usize::MAX,
                v@ == spec_get_header0() + self.host_view().take(k as int),
            decreases self.host_view().len() - k,
        {
            v.push(self.host[k]);
            k = k + 1;
            proof {
                assert(v@ =~= spec_get_header0() + self.host_view().take(k as int));
            }
        }
        let h1: [u8; 28] = [
            13, 10, 67, 111, 110, 110, 101, 99, 116, 105, 111, 110, 58, 32, 107, 101, 101, 112,
            45, 97, 108, 105, 118, 101, 13, 10, 13, 10,
        ];
        let mut j: usize = 0;
        while j < 28
            invariant
                j <= 28,
                h1@ == spec_get_header1(),
                v@ == spec_get_header0() + self.host_view() + spec_get_header1().take(j as int),
            decreases 28 - j,
        {
            v.push(h1[j]);
            j = j + 1;
            proof {
                assert(v@ =~= spec_get_header0() + self.host_view() + spec_get_header1().take(
                    j as int,
                ));
            }
        }
        proof {
            assert(v@ =~= spec_get_header0() + self.host_view() + spec_get_header1());
        }
        v
    }
}

} // verus!

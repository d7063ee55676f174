use vstd::prelude::*;

use crate::error::ParserError;
use crate::utils::UdpRelayBuffer;

verus! {

/// Mathematical model of a [`MixAddrType`] value: the three wire
/// address forms plus the `Null` placeholder that marks "no address"
/// (end of stream on the UDP relay paths).
pub enum MixAddrView {
    V4 { ip: Seq<u8>, port: u16 },
    V6 { segs: Seq<u16>, port: u16 },
    Hostname { name: Seq<u8>, port: u16 },
    Null,
}

impl MixAddrView {
    /// Shape of a valid address: four IPv4 bytes, eight IPv6 segments,
    /// or a hostname of 1 to 255 bytes.
    pub open spec fn wf(self) -> bool {
        match self {
            MixAddrView::V4 { ip, .. } => ip.len() == 4,
            MixAddrView::V6 { segs, .. } => segs.len() == 8,
            MixAddrView::Hostname { name, .. } => 1 <= name.len() <= 255,
            MixAddrView::Null => true,
        }
    }

    pub open spec fn is_null(self) -> bool {
        self is Null
    }
}

/// A port as its two big-endian wire bytes.
pub open spec fn port_be(p: u16) -> Seq<u8> {
    seq![(p / 256) as u8, (p % 256) as u8]
}

/// Eight IPv6 segments as their sixteen big-endian wire bytes.
/// Meaningful when `segs` has exactly eight elements.
pub open spec fn v6_be(segs: Seq<u16>) -> Seq<u8> {
    seq![
        (segs[0] / 256) as u8, (segs[0] % 256) as u8,
        (segs[1] / 256) as u8, (segs[1] % 256) as u8,
        (segs[2] / 256) as u8, (segs[2] % 256) as u8,
        (segs[3] / 256) as u8, (segs[3] % 256) as u8,
        (segs[4] / 256) as u8, (segs[4] % 256) as u8,
        (segs[5] / 256) as u8, (segs[5] % 256) as u8,
        (segs[6] / 256) as u8, (segs[6] % 256) as u8,
        (segs[7] / 256) as u8, (segs[7] % 256) as u8,
    ]
}

/// The SOCKS5-style wire encoding of an address:
/// a tag byte (`0x01` IPv4, `0x03` hostname, `0x04` IPv6), the address
/// bytes (hostnames carry a one-byte length first), then the port in
/// big-endian.  `Null` has no wire form.
pub open spec fn spec_encoded(a: MixAddrView) -> Seq<u8> {
    match a {
        MixAddrView::V4 { ip, port } => seq![1u8] + ip + port_be(port),
        MixAddrView::V6 { segs, port } => seq![4u8] + v6_be(segs) + port_be(port),
        MixAddrView::Hostname { name, port } => seq![3u8, name.len() as u8] + name + port_be(
            port,
        ),
        MixAddrView::Null => Seq::empty(),
    }
}

pub open spec fn spec_encoded_len(a: MixAddrView) -> int {
    match a {
        MixAddrView::V4 { .. } => 7,
        MixAddrView::V6 { .. } => 19,
        MixAddrView::Hostname { name, .. } => 4 + name.len() as int,
        MixAddrView::Null => 0,
    }
}

/// Decoding an address from the front of `s`: either the decoded
/// address together with the number of bytes it occupied, or
/// `Incomplete` when `s` is a strict prefix of an encoding, or
/// `Invalid` on an unknown tag or an empty hostname.
pub open spec fn spec_decode(s: Seq<u8>) -> Result<(MixAddrView, int), ParserError> {
    if s.len() == 0 {
        Err(ParserError::Incomplete)
    } else if s[0] == 1 {
        if s.len() < 7 {
            Err(ParserError::Incomplete)
        } else {
            Ok(
                (
                    MixAddrView::V4 {
                        ip: s.subrange(1, 5),
                        port: (s[5] * 256 + s[6]) as u16,
                    },
                    7,
                ),
            )
        }
    } else if s[0] == 3 {
        if s.len() < 2 {
            Err(ParserError::Incomplete)
        } else if s[1] == 0 {
            Err(ParserError::Invalid)
        } else if s.len() < 4 + s[1] {
            Err(ParserError::Incomplete)
        } else {
            Ok(
                (
                    MixAddrView::Hostname {
                        name: s.subrange(2, 2 + s[1]),
                        port: (s[2 + s[1]] * 256 + s[3 + s[1]]) as u16,
                    },
                    4 + s[1],
                ),
            )
        }
    } else if s[0] == 4 {
        if s.len() < 19 {
            Err(ParserError::Incomplete)
        } else {
            Ok(
                (
                    MixAddrView::V6 {
                        segs: seq![
                            (s[1] * 256 + s[2]) as u16,
                            (s[3] * 256 + s[4]) as u16,
                            (s[5] * 256 + s[6]) as u16,
                            (s[7] * 256 + s[8]) as u16,
                            (s[9] * 256 + s[10]) as u16,
                            (s[11] * 256 + s[12]) as u16,
                            (s[13] * 256 + s[14]) as u16,
                            (s[15] * 256 + s[16]) as u16,
                        ],
                        port: (s[17] * 256 + s[18]) as u16,
                    },
                    19,
                ),
            )
        }
    } else {
        Err(ParserError::Invalid)
    }
}

/// Tagged address value: IPv4, IPv6 or hostname, each with a port, or
/// the `Null` placeholder.
#[derive(Debug, PartialEq, Eq)]
pub enum MixAddrType {
    V4(([u8; 4], u16)),
    V6(([u16; 8], u16)),
    Hostname((Vec<u8>, u16)),
    Null,
}

impl View for MixAddrType {
    type V = MixAddrView;

    open spec fn view(&self) -> MixAddrView {
        match self {
            MixAddrType::V4((ip, port)) => MixAddrView::V4 { ip: ip@, port: *port },
            MixAddrType::V6((segs, port)) => MixAddrView::V6 { segs: segs@, port: *port },
            MixAddrType::Hostname((name, port)) => MixAddrView::Hostname {
                name: name@,
                port: *port,
            },
            MixAddrType::Null => MixAddrView::Null,
        }
    }
}

/// High byte of a big-endian `u16`.
fn u16_hi(x: u16) -> (r: u8)
    ensures
        r == x / 256,
{
    (x / 256) as u8
}

/// Low byte of a big-endian `u16`.
fn u16_lo(x: u16) -> (r: u8)
    ensures
        r == x % 256,
{
    (x % 256) as u8
}

impl MixAddrType {
    pub fn new_null() -> (r: Self)
        ensures
            r@ is Null,
    {
        MixAddrType::Null
    }

    /// True of the `Null` placeholder, which stands for "no address".
    pub fn is_none(&self) -> (r: bool)
        ensures
            r == self@.is_null(),
    {
        match self {
            MixAddrType::Null => true,
            _ => false,
        }
    }

    /// Number of bytes of the wire encoding.
    pub fn encoded_len(&self) -> (r: usize)
        requires
            self@.wf(),
            !self@.is_null(),
        ensures
            r == spec_encoded_len(self@),
    {
        match self {
            MixAddrType::V4(_) => 7,
            MixAddrType::V6(_) => 19,
            MixAddrType::Hostname((name, _)) => 4 + name.len(),
            MixAddrType::Null => 0,
        }
    }

    /// The wire encoding as a fresh byte vector.
    pub fn encoded_bytes(&self) -> (r: Vec<u8>)
        requires
            self@.wf(),
            !self@.is_null(),
        ensures
            r@ == spec_encoded(self@),
            r@.len() == spec_encoded_len(self@),
    {
        let mut v: Vec<u8> = Vec::new();
        match self {
            MixAddrType::V4((ip, port)) => {
                v.push(1);
                v.push(ip[0]);
                v.push(ip[1]);
                v.push(ip[2]);
                v.push(ip[3]);
                v.push(u16_hi(*port));
                v.push(u16_lo(*port));
                proof {
                    assert(v@ =~= spec_encoded(self@));
                }
            },
            MixAddrType::V6((segs, port)) => {
                v.push(4);
                let mut i: usize = 0;
                while i < 8
                    invariant
                        i <= 8,
                        segs@.len() == 8,
                        v@.len() == 1 + 2 * i,
                        v@[0] == 4u8,
                        forall|k: int|
                            0 <= k < i ==> v@[1 + 2 * k] == segs@[k] / 256 && v@[2 + 2 * k]
                                == segs@[k] % 256,
                    decreases 8 - i,
                {
                    v.push(u16_hi(segs[i]));
                    v.push(u16_lo(segs[i]));
                    i = i + 1;
                }
                v.push(u16_hi(*port));
                v.push(u16_lo(*port));
                proof {
                    assert(v@ =~= spec_encoded(self@));
                }
            },
            MixAddrType::Hostname((name, port)) => {
                v.push(3);
                v.push(name.len() as u8);
                let mut i: usize = 0;
                while i < name.len()
                    invariant
                        i <= name@.len(),
                        name@.len() <= 255,
                        v@ == seq![3u8, name@.len() as u8] + name@.take(i as int),
                    decreases name@.len() - i,
                {
                    v.push(name[i]);
                    proof {
                        assert(v@ =~= seq![3u8, name@.len() as u8] + name@.take(i + 1));
                    }
                    i = i + 1;
                }
                v.push(u16_hi(*port));
                v.push(u16_lo(*port));
                proof {
                    assert(v@ =~= spec_encoded(self@));
                }
            },
            MixAddrType::Null => {},
        }
        v
    }

    /// Append the wire encoding to `buf`; the read cursor of `buf`
    /// does not move.
    pub fn write_buf(&self, buf: &mut UdpRelayBuffer)
        requires
            self@.wf(),
            !self@.is_null(),
            old(buf).data().len() + spec_encoded_len(self@) <= usize::MAX,
        ensures
            final(buf).data() == old(buf).data() + spec_encoded(self@),
            final(buf).cur() == old(buf).cur(),
            old(buf).wf() ==> final(buf).wf(),
    {
        let bytes = self.encoded_bytes();
        buf.extend_from_slice(bytes.as_slice());
    }

    /// Decode one address from the front of `buf`, consuming exactly
    /// its wire bytes on success and nothing on failure.
    pub fn from_encoded(buf: &mut UdpRelayBuffer) -> (r: Result<MixAddrType, ParserError>)
        requires
            old(buf).wf(),
        ensures
            final(buf).wf(),
            final(buf).data() == old(buf).data(),
            r matches Ok(a) ==> {
                &&& a@.wf()
                &&& !a@.is_null()
                &&& spec_decode(old(buf).chunk_view()) == Ok::<(MixAddrView, int), ParserError>(
                    (a@, final(buf).cur() - old(buf).cur()),
                )
                &&& final(buf).chunk_view() == old(buf).chunk_view().skip(
                    spec_encoded_len(a@),
                )
            },
            r matches Err(e) ==> {
                &&& final(buf).cur() == old(buf).cur()
                &&& spec_decode(old(buf).chunk_view()) == Err::<(MixAddrView, int), ParserError>(
                    e,
                )
            },
    {
        let rem = buf.remaining();
        if rem == 0 {
            return Err(ParserError::Incomplete);
        }
        let tag = { buf.chunk()[0] };
        if tag == 1 {
            if rem < 7 {
                return Err(ParserError::Incomplete);
            }
            let (ip, port) = {
                let c = buf.chunk();
                ([c[1], c[2], c[3], c[4]], (c[5] as u16) * 256 + (c[6] as u16))
            };
            buf.advance(7);
            let a = MixAddrType::V4((ip, port));
            proof {
                assert(a@.wf());
                assert(spec_decode(old(buf).chunk_view()) == Ok::<
                    (MixAddrView, int),
                    ParserError,
                >((a@, 7int))) by {
                    assert(ip@ =~= old(buf).chunk_view().subrange(1, 5));
                }
            }
            Ok(a)
        } else if tag == 3 {
            if rem < 2 {
                return Err(ParserError::Incomplete);
            }
            let n = { buf.chunk()[1] as usize };
            if n == 0 {
                return Err(ParserError::Invalid);
            }
            if rem < 4 + n {
                return Err(ParserError::Incomplete);
            }
            let mut name: Vec<u8> = Vec::new();
            let mut i: usize = 0;
            while i < n
                invariant
                    i <= n,
                    n <= 255,
                    n + 4 <= buf.chunk_view().len(),
                    buf.wf(),
                    name@ == buf.chunk_view().subrange(2, 2 + i),
                decreases n - i,
            {
                let b = { buf.chunk()[2 + i] };
                name.push(b);
                proof {
                    assert(name@ =~= buf.chunk_view().subrange(2, 2 + i + 1));
                }
                i = i + 1;
            }
            let port = {
                let c = buf.chunk();
                (c[2 + n] as u16) * 256 + (c[3 + n] as u16)
            };
            buf.advance(4 + n);
            let a = MixAddrType::Hostname((name, port));
            proof {
                assert(a@.wf());
                assert(spec_decode(old(buf).chunk_view()) == Ok::<
                    (MixAddrView, int),
                    ParserError,
                >((a@, 4 + n as int)));
            }
            Ok(a)
        } else if tag == 4 {
            if rem < 19 {
                return Err(ParserError::Incomplete);
            }
            let (segs, port) = {
                let c = buf.chunk();
                (
                    [
                        (c[1] as u16) * 256 + (c[2] as u16),
                        (c[3] as u16) * 256 + (c[4] as u16),
                        (c[5] as u16) * 256 + (c[6] as u16),
                        (c[7] as u16) * 256 + (c[8] as u16),
                        (c[9] as u16) * 256 + (c[10] as u16),
                        (c[11] as u16) * 256 + (c[12] as u16),
                        (c[13] as u16) * 256 + (c[14] as u16),
                        (c[15] as u16) * 256 + (c[16] as u16),
                    ],
                    (c[17] as u16) * 256 + (c[18] as u16),
                )
            };
            buf.advance(19);
            let a = MixAddrType::V6((segs, port));
            proof {
                assert(a@.wf());
                assert(spec_decode(old(buf).chunk_view()) == Ok::<
                    (MixAddrView, int),
                    ParserError,
                >((a@, 19int))) by {
                    let c = old(buf).chunk_view();
                    assert(segs@ =~= seq![
                        (c[1] * 256 + c[2]) as u16,
                        (c[3] * 256 + c[4]) as u16,
                        (c[5] * 256 + c[6]) as u16,
                        (c[7] * 256 + c[8]) as u16,
                        (c[9] * 256 + c[10]) as u16,
                        (c[11] * 256 + c[12]) as u16,
                        (c[13] * 256 + c[14]) as u16,
                        (c[15] * 256 + c[16]) as u16,
                    ]);
                }
            }
            Ok(a)
        } else {
            Err(ParserError::Invalid)
        }
    }
}

/// Law: decoding inverts encoding.  Any valid, non-null address,
/// encoded and followed by arbitrary trailing bytes, decodes back to
/// exactly that address, consuming exactly its encoding.
pub proof fn lemma_mix_addr_round_trip(a: MixAddrView, rest: Seq<u8>)
    requires
        a.wf(),
        !a.is_null(),
    ensures
        spec_decode(spec_encoded(a) + rest) == Ok::<(MixAddrView, int), ParserError>(
            (a, spec_encoded_len(a)),
        ),
{
    let s = spec_encoded(a) + rest;
    match a {
        MixAddrView::V4 { ip, port } => {
            lemma_be_pair(port);
            assert(s.subrange(1, 5) =~= ip);
        },
        MixAddrView::V6 { segs, port } => {
            lemma_be_pair(port);
            lemma_be_pair(segs[0]);
            lemma_be_pair(segs[1]);
            lemma_be_pair(segs[2]);
            lemma_be_pair(segs[3]);
            lemma_be_pair(segs[4]);
            lemma_be_pair(segs[5]);
            lemma_be_pair(segs[6]);
            lemma_be_pair(segs[7]);
            assert(spec_decode(s) matches Ok(p) && p.0 matches MixAddrView::V6 {
                segs: s2,
                port: p2,
            } && s2 =~= segs && p2 == port);
        },
        MixAddrView::Hostname { name, port } => {
            lemma_be_pair(port);
            assert(s[1] == name.len() as u8);
            assert(s[1] == name.len());
            assert(s.subrange(2, 2 + name.len() as int) =~= name);
        },
        MixAddrView::Null => {},
    }
}

/// A `u16` split into its big-endian bytes recombines to itself.
proof fn lemma_be_pair(x: u16)
    ensures
        (x / 256) * 256 + (x % 256) == x,
        0 <= x / 256 < 256,
        0 <= x % 256 < 256,
{
    vstd::arithmetic::div_mod::lemma_fundamental_div_mod(x as int, 256);
}

} // verus!

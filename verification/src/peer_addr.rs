//! Peer address wire encoding.
//!
//! A peer address is an IP address and a port. The wire form writes the
//! four IPv4 octets raw, then the port as an unsigned VLQ; IPv6 addresses
//! are not supported on the wire and serializing one is refused.

use vstd::prelude::*;

use crate::hex::hex_digit;
use crate::vlq::{parse_vlq, vlq_bytes, write_vlq, lemma_vlq_roundtrip};

verus! {

/// An IP address as plain octets.
#[derive(Debug, PartialEq, Eq, Clone, Copy)]
pub enum Ip {
    /// An IPv4 address.
    V4([u8; 4]),
    /// An IPv6 address.
    V6([u8; 16]),
}

/// A peer address: an IP address and a port.
#[derive(Debug, PartialEq, Eq, Clone, Copy)]
pub struct PeerAddr {
    /// The IP address.
    pub ip: Ip,
    /// The port.
    pub port: u16,
}

/// Mathematical model of [`Ip`].
#[verifier::ext_equal]
pub enum IpV {
    /// An IPv4 address.
    V4(Seq<u8>),
    /// An IPv6 address.
    V6(Seq<u8>),
}

/// Mathematical model of [`PeerAddr`].
#[verifier::ext_equal]
pub struct PeerAddrV {
    /// The IP address.
    pub ip: IpV,
    /// The port.
    pub port: u16,
}

impl View for PeerAddr {
    type V = PeerAddrV;

    open spec fn view(&self) -> PeerAddrV {
        PeerAddrV {
            ip: match self.ip {
                Ip::V4(o) => IpV::V4(o@),
                Ip::V6(o) => IpV::V6(o@),
            },
            port: self.port,
        }
    }
}

/// A refusal to serialize: the wire form holds IPv4 addresses only.
#[derive(Debug, PartialEq, Eq, Clone, Copy)]
pub enum ScorexSerializationError {
    /// The value has no wire form.
    NotSupported,
}

impl ScorexSerializationError {
    /// Human-readable classification of this error.
    pub fn description(&self) -> &'static str {
        match self {
            ScorexSerializationError::NotSupported => "ipv6 not supported",
        }
    }
}

/// A parse failure of the peer address wire form.
#[derive(Debug, PartialEq, Eq, Clone, Copy)]
pub enum ScorexParsingError {
    /// The input ended before the address did.
    TruncatedInput,
    /// A malformed or overflowing variable-length integer.
    InvalidVlq,
    /// The port value does not fit sixteen bits.
    PortOutOfRange,
}

impl ScorexParsingError {
    /// Human-readable classification of this error.
    pub fn description(&self) -> &'static str {
        match self {
            ScorexParsingError::TruncatedInput => "truncated input",
            ScorexParsingError::InvalidVlq => "invalid variable-length integer",
            ScorexParsingError::PortOutOfRange => "port out of range",
        }
    }
}

/// The wire form of an IPv4 peer address: four raw octets, then the port
/// as an unsigned VLQ.
pub open spec fn ser_peer_addr(octets: Seq<u8>, port: u16) -> Seq<u8> {
    octets + vlq_bytes(port as u64)
}

/// Parsing a peer address from `b` at `pos`.
pub open spec fn parse_peer_addr(b: Seq<u8>, pos: int) -> Result<(PeerAddrV, int), ScorexParsingError> {
    if pos < 0 || pos + 4 > b.len() {
        Err(ScorexParsingError::TruncatedInput)
    } else {
        match parse_vlq(b, pos + 4) {
            Option::None => Err(ScorexParsingError::InvalidVlq),
            Option::Some((u, p2)) => if u <= u16::MAX as u64 {
                Ok(
                    (
                        PeerAddrV { ip: IpV::V4(b.subrange(pos, pos + 4)), port: u as u16 },
                        p2,
                    ),
                )
            } else {
                Err(ScorexParsingError::PortOutOfRange)
            },
        }
    }
}

impl PeerAddr {
    /// Size in bytes of the ip address associated with this peer address.
    pub fn ip_size(&self) -> (r: usize)
        ensures
            self@.ip matches IpV::V4(o) ==> r == o.len(),
            self@.ip matches IpV::V6(o) ==> r == o.len(),
    {
        match &self.ip {
            Ip::V4(_) => 4,
            Ip::V6(_) => 16,
        }
    }

    /// Appends the wire form: the four IPv4 octets, then the port. An
    /// IPv6 address is refused and the writer is left untouched.
    pub fn scorex_serialize(&self, w: &mut Vec<u8>) -> (r: Result<(), ScorexSerializationError>)
        ensures
            match self@.ip {
                IpV::V4(o) => r == Ok::<(), ScorexSerializationError>(()) && final(w)@ == old(w)@
                    + ser_peer_addr(o, self.port),
                IpV::V6(_) => r == Err::<(), ScorexSerializationError>(
                    ScorexSerializationError::NotSupported,
                ) && final(w)@ == old(w)@,
            },
    {
        let octets = match &self.ip {
            Ip::V4(o) => o,
            Ip::V6(_) => {
                return Err(ScorexSerializationError::NotSupported);
            },
        };
        let mut k: usize = 0;
        while k < 4
            invariant
                0 <= k <= 4,
                octets@.len() == 4,
                w@ =~= old(w)@ + octets@.take(k as int),
            decreases 4 - k,
        {
            w.push(octets[k]);
            k += 1;
        }
        write_vlq(w, self.port as u64);
        proof {
            assert(octets@.take(4) =~= octets@);
            assert(final(w)@ =~= old(w)@ + ser_peer_addr(octets@, self.port));
        }
        Ok(())
    }

    /// Reads a peer address from `b` at `*pos`, advancing it; mirrors
    /// [`parse_peer_addr`] exactly.
    pub fn scorex_parse(b: &Vec<u8>, pos: &mut usize) -> (r: Result<PeerAddr, ScorexParsingError>)
        requires
            *old(pos) <= b@.len(),
        ensures
            *final(pos) <= b@.len(),
            match parse_peer_addr(b@, *old(pos) as int) {
                Ok(sp) => (r matches Ok(a) && a@ == sp.0 && *final(pos) == sp.1),
                Err(e) => r == Err::<PeerAddr, ScorexParsingError>(e),
            },
    {
        if b.len() - *pos < 4 {
            return Err(ScorexParsingError::TruncatedInput);
        }
        let start = *pos;
        let blen = b.len();
        let mut fa = [0u8; 4];
        let mut k: usize = 0;
        while k < 4
            invariant
                0 <= k <= 4,
                start + 4 <= blen,
                blen == b@.len(),
                fa@.len() == 4,
                forall|j: int| 0 <= j < k ==> fa@[j] == b@[start + j],
            decreases 4 - k,
        {
            fa[k] = b[start + k];
            k += 1;
        }
        *pos = start + 4;
        match crate::vlq::read_vlq(b, pos) {
            Option::None => {
                *pos = start;
                Err(ScorexParsingError::InvalidVlq)
            },
            Option::Some(u) => {
                if u <= u16::MAX as u64 {
                    proof {
                        assert(fa@ =~= b@.subrange(start as int, start as int + 4));
                    }
                    Ok(PeerAddr { ip: Ip::V4(fa), port: u as u16 })
                } else {
                    *pos = start;
                    Err(ScorexParsingError::PortOutOfRange)
                }
            },
        }
    }
}

/// The peer address wire form round-trips: parsing right after writing an
/// IPv4 address gives the address back.
pub proof fn lemma_peer_addr_roundtrip(b: Seq<u8>, pos: int, octets: Seq<u8>, port: u16)
    requires
        0 <= pos,
        octets.len() == 4,
        pos + ser_peer_addr(octets, port).len() <= b.len(),
        b.subrange(pos, pos + ser_peer_addr(octets, port).len() as int) == ser_peer_addr(
            octets,
            port,
        ),
    ensures
        parse_peer_addr(b, pos) == Ok::<(PeerAddrV, int), ScorexParsingError>(
            (
                PeerAddrV { ip: IpV::V4(octets), port },
                pos + ser_peer_addr(octets, port).len() as int,
            ),
        ),
{
    let w = ser_peer_addr(octets, port);
    crate::serializer::lemma_subrange_of_match(b, pos, w, 0, 4);
    assert(w.subrange(0, 4) =~= octets);
    crate::serializer::lemma_subrange_of_match(b, pos, w, 4, w.len() as int);
    assert(w.subrange(4, w.len() as int) =~= vlq_bytes(port as u64));
    lemma_vlq_roundtrip(b, pos + 4, port as u64);
    assert(b.subrange(pos, pos + 4) =~= octets);
}


/// Decimal rendering of an unsigned integer, most significant digit first.
pub open spec fn dec_of(n: nat) -> Seq<u8>
    decreases n,
{
    if n < 10 {
        seq![(48 + n) as u8]
    } else {
        dec_of(n / 10) + seq![(48 + n % 10) as u8]
    }
}

/// Lower-case hex rendering of an unsigned integer, no leading zeros.
pub open spec fn hex_group_of(n: nat) -> Seq<u8>
    decreases n,
{
    if n < 16 {
        seq![hex_digit(n as u8)]
    } else {
        hex_group_of(n / 16) + seq![hex_digit((n % 16) as u8)]
    }
}

/// The colon-separated hex groups of an IPv6 address from group `i` on:
/// big-endian sixteen-bit groups, no zero compression.
pub open spec fn v6_groups_text(o: Seq<u8>, i: int) -> Seq<u8>
    decreases 8 - i,
{
    if i < 0 || i >= 8 {
        Seq::empty()
    } else {
        hex_group_of((o[2 * i] * 256 + o[2 * i + 1]) as nat) + (if i < 7 {
            seq![58u8]
        } else {
            Seq::empty()
        }) + v6_groups_text(o, i + 1)
    }
}

/// The host text of a peer address: dotted decimal for IPv4, bracketed
/// hex groups for IPv6.
pub open spec fn host_text(ip: IpV) -> Seq<u8> {
    match ip {
        IpV::V4(o) => dec_of(o[0] as nat) + seq![46u8] + dec_of(o[1] as nat) + seq![46u8] + dec_of(
            o[2] as nat,
        ) + seq![46u8] + dec_of(o[3] as nat),
        IpV::V6(o) => seq![91u8] + v6_groups_text(o, 0) + seq![93u8],
    }
}

/// The `http://host:port` text of a peer address, as ASCII bytes.
pub open spec fn http_url_text(a: PeerAddrV) -> Seq<u8> {
    seq![104u8, 116u8, 116u8, 112u8, 58u8, 47u8, 47u8] + host_text(a.ip) + seq![58u8] + dec_of(
        a.port as nat,
    )
}

/// Appends the decimal rendering of `n`.
fn push_dec(out: &mut Vec<u8>, n: u64)
    ensures
        final(out)@ == old(out)@ + dec_of(n as nat),
    decreases n,
{
    if n >= 10 {
        push_dec(out, n / 10);
    }
    out.push(48 + (n % 10) as u8);
    proof {
        assert(final(out)@ =~= old(out)@ + dec_of(n as nat));
    }
}

/// Appends the hex rendering of `n`.
fn push_hex_group(out: &mut Vec<u8>, n: u16)
    ensures
        final(out)@ == old(out)@ + hex_group_of(n as nat),
    decreases n,
{
    if n >= 16 {
        push_hex_group(out, n / 16);
    }
    let nib = (n % 16) as u8;
    out.push(if nib < 10 {
        48 + nib
    } else {
        87 + nib
    });
    proof {
        assert(final(out)@ =~= old(out)@ + hex_group_of(n as nat));
    }
}

/// Appends the IPv6 hex groups from group `i` on.
fn push_v6_groups(out: &mut Vec<u8>, o: &[u8; 16], i: usize)
    requires
        i <= 8,
    ensures
        final(out)@ == old(out)@ + v6_groups_text(o@, i as int),
    decreases 8 - i,
{
    if i < 8 {
        let group: u16 = (o[2 * i] as u16) * 256 + (o[2 * i + 1] as u16);
        push_hex_group(out, group);
        if i < 7 {
            out.push(58);
        }
        push_v6_groups(out, o, i + 1);
        proof {
            assert(final(out)@ =~= old(out)@ + v6_groups_text(o@, i as int));
        }
    } else {
        proof {
            assert(final(out)@ =~= old(out)@ + v6_groups_text(o@, i as int));
        }
    }
}

impl PeerAddr {
    /// The `http://host:port` text of this address, as ASCII bytes:
    /// dotted decimal for IPv4, bracketed colon-separated hex groups for
    /// IPv6, the port in decimal.
    pub fn http_url_bytes(&self) -> (r: Vec<u8>)
        ensures
            r@ == http_url_text(self@),
    {
        let mut out: Vec<u8> = Vec::new();
        out.push(104);
        out.push(116);
        out.push(116);
        out.push(112);
        out.push(58);
        out.push(47);
        out.push(47);
        match &self.ip {
            Ip::V4(o) => {
                push_dec(&mut out, o[0] as u64);
                out.push(46);
                push_dec(&mut out, o[1] as u64);
                out.push(46);
                push_dec(&mut out, o[2] as u64);
                out.push(46);
                push_dec(&mut out, o[3] as u64);
            },
            Ip::V6(o) => {
                out.push(91);
                push_v6_groups(&mut out, o, 0);
                out.push(93);
            },
        }
        out.push(58);
        push_dec(&mut out, self.port as u64);
        proof {
            assert(out@ =~= http_url_text(self@));
        }
        out
    }
}

} // verus!

//! Transport addresses, held as the text that spells them.
use vstd::prelude::*;
use crate::model::views;
use crate::text::decimal;

verus! {

/// Whether `text` parses as a `libp2p::Multiaddr`.
pub uninterp spec fn is_multiaddr(text: Seq<char>) -> bool;

/// Calls `str::parse::<libp2p::Multiaddr>` and says whether it accepted the
/// text.
#[verifier::external_body]
fn multiaddr_parses(text: &str) -> (ok: bool)
    ensures
        ok == is_multiaddr(text@),
{
    text.parse::<libp2p::Multiaddr>().is_ok()
}

/// The text of the IPv4 address `ip`: its four numbers in decimal with dots
/// between them.
pub open spec fn ipv4_text(ip: Seq<u8>) -> Seq<char> {
    decimal(ip[0] as nat) + seq!['.'] + decimal(ip[1] as nat) + seq!['.'] + decimal(ip[2] as nat)
        + seq!['.'] + decimal(ip[3] as nat)
}

/// The text that the standard library prints for the IPv6 address of these
/// eight segments.
pub uninterp spec fn ipv6_text(segments: Seq<u16>) -> Seq<char>;

/// Whether every segment is zero: the unspecified address.
pub open spec fn unspecified(segments: Seq<u16>) -> bool {
    forall|i: int| 0 <= i < segments.len() ==> segments[i] == 0
}

/// Builds, with `Multiaddr::empty` and `Multiaddr::with`, the address of TCP
/// port `port` at the IPv4 address `ip`, and prints it. The crate prints
/// each protocol as a slash, its name, a slash and its value, and parses
/// what it prints.
#[verifier::external_body]
fn ipv4_tcp_text(ip: [u8; 4], port: u16) -> (text: String)
    ensures
        text@ == "/ip4/"@ + ipv4_text(ip@) + "/tcp/"@ + decimal(port as nat),
        is_multiaddr(text@),
{
    libp2p::Multiaddr::empty().with(libp2p::multiaddr::Protocol::Ip4(ip.into())).with(
        libp2p::multiaddr::Protocol::Tcp(port),
    ).to_string()
}

/// The same for QUIC over UDP port `port` at the IPv4 address `ip`.
#[verifier::external_body]
fn ipv4_quic_text(ip: [u8; 4], port: u16) -> (text: String)
    ensures
        text@ == "/ip4/"@ + ipv4_text(ip@) + "/udp/"@ + decimal(port as nat) + "/quic-v1"@,
        is_multiaddr(text@),
{
    libp2p::Multiaddr::empty().with(libp2p::multiaddr::Protocol::Ip4(ip.into())).with(
        libp2p::multiaddr::Protocol::Udp(port),
    ).with(libp2p::multiaddr::Protocol::QuicV1).to_string()
}

/// The same for TCP port `port` at the IPv6 address of these segments. The
/// standard library prints the unspecified address as two colons.
#[verifier::external_body]
fn ipv6_tcp_text(segments: [u16; 8], port: u16) -> (text: String)
    ensures
        text@ == "/ip6/"@ + ipv6_text(segments@) + "/tcp/"@ + decimal(port as nat),
        unspecified(segments@) ==> text@ == "/ip6/::/tcp/"@ + decimal(port as nat),
        is_multiaddr(text@),
{
    libp2p::Multiaddr::empty().with(libp2p::multiaddr::Protocol::Ip6(segments.into())).with(
        libp2p::multiaddr::Protocol::Tcp(port),
    ).to_string()
}

/// The same for QUIC over UDP port `port` at the IPv6 address of these
/// segments.
#[verifier::external_body]
fn ipv6_quic_text(segments: [u16; 8], port: u16) -> (text: String)
    ensures
        text@ == "/ip6/"@ + ipv6_text(segments@) + "/udp/"@ + decimal(port as nat) + "/quic-v1"@,
        unspecified(segments@) ==> text@ == "/ip6/::/udp/"@ + decimal(port as nat) + "/quic-v1"@,
        is_multiaddr(text@),
{
    libp2p::Multiaddr::empty().with(libp2p::multiaddr::Protocol::Ip6(segments.into())).with(
        libp2p::multiaddr::Protocol::Udp(port),
    ).with(libp2p::multiaddr::Protocol::QuicV1).to_string()
}

/// Which family of interfaces an address names.
#[derive(Debug, Clone, Copy, PartialEq, Eq, Structural)]
pub enum IpFamily {
    V4,
    V6,
}

/// Which transport an address names.
#[derive(Debug, Clone, Copy, PartialEq, Eq, Structural)]
pub enum Transport {
    Tcp,
    Quic,
}

/// The text of the address that listens with `transport` on port `port` of
/// every interface of `family`.
pub open spec fn wildcard_text(family: IpFamily, transport: Transport, port: u16) -> Seq<char> {
    match (family, transport) {
        (IpFamily::V4, Transport::Tcp) => "/ip4/0.0.0.0/tcp/"@ + decimal(port as nat),
        (IpFamily::V4, Transport::Quic) => "/ip4/0.0.0.0/udp/"@ + decimal(port as nat)
            + "/quic-v1"@,
        (IpFamily::V6, Transport::Tcp) => "/ip6/::/tcp/"@ + decimal(port as nat),
        (IpFamily::V6, Transport::Quic) => "/ip6/::/udp/"@ + decimal(port as nat) + "/quic-v1"@,
    }
}

/// A transport address.
#[derive(Debug, PartialEq, Eq)]
pub struct Multiaddr {
    text: String,
}

impl View for Multiaddr {
    type V = Seq<char>;

    closed spec fn view(&self) -> Seq<char> {
        self.text@
    }
}

impl Clone for Multiaddr {
    fn clone(&self) -> (copy: Self)
        ensures
            copy@ == self@,
    {
        proof {
            use_type_invariant(self);
        }
        Multiaddr { text: self.text.clone() }
    }
}

impl Multiaddr {
    #[verifier::type_invariant]
    spec fn well_formed(&self) -> bool {
        is_multiaddr(self.text@)
    }

    /// The address that `text` spells, where it spells one.
    pub fn parse(text: String) -> (address: Option<Multiaddr>)
        ensures
            address is Some <==> is_multiaddr(text@),
            address matches Some(a) ==> a@ == text@,
    {
        if multiaddr_parses(text.as_str()) {
            Some(Multiaddr { text })
        } else {
            None
        }
    }

    /// The address that listens with `transport` on port `port` of every
    /// interface of `family`.
    pub fn wildcard(family: IpFamily, transport: Transport, port: u16) -> (address: Multiaddr)
        ensures
            address@ == wildcard_text(family, transport, port),
    {
        let any_v4: [u8; 4] = [0, 0, 0, 0];
        let any_v6: [u16; 8] = [0, 0, 0, 0, 0, 0, 0, 0];
        proof {
            reveal_strlit("/ip4/");
            reveal_strlit("/tcp/");
            reveal_strlit("/udp/");
            reveal_strlit("/ip4/0.0.0.0/tcp/");
            reveal_strlit("/ip4/0.0.0.0/udp/");
            assert(ipv4_text(any_v4@) =~= seq!['0', '.', '0', '.', '0', '.', '0']);
            assert("/ip4/"@ + ipv4_text(any_v4@) + "/tcp/"@ =~= "/ip4/0.0.0.0/tcp/"@);
            assert("/ip4/"@ + ipv4_text(any_v4@) + "/udp/"@ =~= "/ip4/0.0.0.0/udp/"@);
            assert(unspecified(any_v6@));
        }
        let text = match family {
            IpFamily::V4 => match transport {
                Transport::Tcp => ipv4_tcp_text(any_v4, port),
                Transport::Quic => ipv4_quic_text(any_v4, port),
            },
            IpFamily::V6 => match transport {
                Transport::Tcp => ipv6_tcp_text(any_v6, port),
                Transport::Quic => ipv6_quic_text(any_v6, port),
            },
        };
        Multiaddr { text }
    }

    /// The text of the address.
    pub fn as_str(&self) -> (text: &str)
        ensures
            text@ == self@,
            is_multiaddr(text@),
    {
        proof {
            use_type_invariant(self);
        }
        self.text.as_str()
    }
}

/// A copy of a list of addresses.
pub fn clone_addresses(list: &Vec<Multiaddr>) -> (copy: Vec<Multiaddr>)
    ensures
        views(copy@) == views(list@),
{
    let mut copy: Vec<Multiaddr> = Vec::new();
    let mut i: usize = 0;
    while i < list.len()
        invariant
            i <= list@.len(),
            copy@.len() == i,
            forall|k: int| 0 <= k < i ==> (#[trigger] copy@[k])@ == list@[k]@,
        decreases list@.len() - i,
    {
        copy.push(list[i].clone());
        i = i + 1;
    }
    proof {
        assert(views(copy@) =~= views(list@));
    }
    copy
}

} // verus!

//! What a node is constructed from.
use vstd::prelude::*;
use crate::address::clone_addresses;
use crate::address::wildcard_text;
use crate::address::IpFamily;
use crate::address::Multiaddr;
use crate::address::Transport;
use crate::error::Error;
use crate::error::ErrorView;
use crate::message::fresh_id;
use crate::message::is_random_id;
use crate::model::views;
use crate::peer::fresh_keypair;
use crate::peer::same_keypair;
use crate::text::hex;
use crate::text::joined;

verus! {

/// The port that a node listens on when it is told nothing else.
pub const DEFAULT_PORT: u16 = 5511;

/// The usual text of the identifier `id`: its thirty-two hexadecimal digits,
/// most significant first and in lower case, in groups of eight, four,
/// four, four and twelve with a hyphen between them.
pub open spec fn uuid_text(id: u128) -> Seq<char> {
    let digits = hex(id as nat, 32);
    digits.subrange(0, 8) + seq!['-'] + digits.subrange(8, 12) + seq!['-'] + digits.subrange(
        12,
        16,
    ) + seq!['-'] + digits.subrange(16, 20) + seq!['-'] + digits.subrange(20, 32)
}

/// Calls `uuid::Uuid::from_u128` and prints the result. The crate prints an
/// identifier hyphenated and in lower case: the bytes of the number, most
/// significant first, two digits each.
#[verifier::external_body]
pub(crate) fn hyphenated(id: u128) -> (text: String)
    ensures
        text@ == uuid_text(id),
{
    uuid::Uuid::from_u128(id).to_string()
}

/// The configuration of a node: its display name, its identity, the
/// addresses it listens on and the peers it dials at startup.
#[derive(Debug)]
pub struct Config {
    name: String,
    keypair: libp2p::identity::Keypair,
    addresses: Vec<Multiaddr>,
    bootnodes: Vec<Multiaddr>,
}

/// A [`Config`] as mathematics.
pub struct ConfigView {
    pub name: Seq<char>,
    pub keypair: libp2p::identity::Keypair,
    pub addresses: Seq<Seq<char>>,
    pub bootnodes: Seq<Seq<char>>,
}

impl View for Config {
    type V = ConfigView;

    closed spec fn view(&self) -> ConfigView {
        ConfigView {
            name: self.name@,
            keypair: self.keypair,
            addresses: views(self.addresses@),
            bootnodes: views(self.bootnodes@),
        }
    }
}

/// The addresses that a node listens on when it is told nothing else: TCP
/// and QUIC on the default port of every IPv4 interface.
pub open spec fn default_addresses() -> Seq<Seq<char>> {
    seq![
        wildcard_text(IpFamily::V4, Transport::Tcp, DEFAULT_PORT),
        wildcard_text(IpFamily::V4, Transport::Quic, DEFAULT_PORT),
    ]
}

impl Config {
    /// The configuration with these parts. It is refused, as a configuration
    /// error, exactly where there is no address to listen on.
    pub fn new(
        name: String,
        keypair: libp2p::identity::Keypair,
        interfaces: Vec<Multiaddr>,
        bootnodes: Vec<Multiaddr>,
    ) -> (config: Result<Config, Error>)
        ensures
            config is Err <==> interfaces@.len() == 0,
            config matches Err(e) ==> e@ == ErrorView::Config(
                "At least one interface is required."@,
            ),
            config matches Ok(c) ==> c@ == (ConfigView {
                name: name@,
                keypair,
                addresses: views(interfaces@),
                bootnodes: views(bootnodes@),
            }),
    {
        if interfaces.is_empty() {
            return Err(Error::Config("At least one interface is required.".to_owned()));
        }
        Ok(Config { name, keypair, addresses: interfaces, bootnodes })
    }

    /// A configuration that names no address yet: a node cannot be
    /// constructed from it.
    pub fn new_from_key(name: String, keypair: libp2p::identity::Keypair) -> (config: Config)
        ensures
            config@ == (ConfigView {
                name: name@,
                keypair,
                addresses: Seq::empty(),
                bootnodes: Seq::empty(),
            }),
    {
        let config = Config { name, keypair, addresses: Vec::new(), bootnodes: Vec::new() };
        proof {
            assert(views(config.addresses@) =~= Seq::empty());
            assert(views(config.bootnodes@) =~= Seq::empty());
        }
        config
    }

    /// Notes that the name is short enough for its length to be written in
    /// eight bytes: its length is one that the machine can hold.
    pub(crate) fn note_name_fits(&self)
        ensures
            vstd::utf8::encode_utf8(self@.name).len() < crate::wire::pow256(8),
    {
        let name: &[u8] = self.name.as_str().as_bytes();
        proof {
            crate::wire::lemma_pow256_values();
            vstd::slice::axiom_spec_len(name);
        }
    }

    /// How many addresses there are to listen on.
    pub fn interface_count(&self) -> (count: usize)
        ensures
            count == self@.addresses.len(),
    {
        self.addresses.len()
    }

    /// The peers to dial at startup.
    pub fn bootnodes(&self) -> (list: Vec<Multiaddr>)
        ensures
            views(list@) == self@.bootnodes,
    {
        clone_addresses(&self.bootnodes)
    }

    /// The display name.
    pub fn name(&self) -> (name: String)
        ensures
            name@ == self@.name,
    {
        self.name.clone()
    }

    /// The identity.
    pub fn keypair(&self) -> (keypair: libp2p::identity::Keypair)
        ensures
            keypair == self@.keypair,
    {
        same_keypair(&self.keypair)
    }

    /// The addresses to listen on.
    pub fn interfaces(&self) -> (list: Vec<Multiaddr>)
        ensures
            views(list@) == self@.addresses,
    {
        clone_addresses(&self.addresses)
    }
}

impl Default for Config {
    /// A configuration for a node that was told nothing: a new identity, a
    /// name made of `Node-` and the text of a new random identifier, the
    /// default addresses and no peer to dial.
    fn default() -> (config: Config)
        ensures
            exists|id: u128|
                is_random_id(id) && config@.name == "Node-"@ + #[trigger] uuid_text(id),
            config@.addresses == default_addresses(),
            config@.bootnodes == Seq::<Seq<char>>::empty(),
    {
        let id: u128 = fresh_id();
        let name = joined("Node-", hyphenated(id).as_str());
        let mut addresses: Vec<Multiaddr> = Vec::new();
        addresses.push(Multiaddr::wildcard(IpFamily::V4, Transport::Tcp, DEFAULT_PORT));
        addresses.push(Multiaddr::wildcard(IpFamily::V4, Transport::Quic, DEFAULT_PORT));
        let config = Config { name, keypair: fresh_keypair(), addresses, bootnodes: Vec::new() };
        proof {
            assert(views(config.addresses@) =~= default_addresses());
            assert(views(config.bootnodes@) =~= Seq::<Seq<char>>::empty());
            assert(is_random_id(id) && config@.name == "Node-"@ + uuid_text(id));
        }
        config
    }
}

} // verus!

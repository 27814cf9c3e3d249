//! The settings of the command-line client: who the user is and how the
//! node is to listen.
use vstd::prelude::*;
use crate::address::clone_addresses;
use crate::address::wildcard_text;
use crate::address::IpFamily;
use crate::address::Multiaddr;
use crate::address::Transport;
use crate::model::view_of;
use crate::model::views;

verus! {

/// On which families of interfaces the node listens.
#[derive(Debug, Clone, Copy, PartialEq, Eq, Structural)]
pub enum InterfaceMode {
    IpV4,
    IpV6,
    Both,
}

/// How the node is to listen and whom it dials.
#[derive(Debug, PartialEq, Eq)]
pub struct NodeConfig {
    /// The families of interfaces to listen on.
    pub interface_mode: InterfaceMode,
    /// The port to listen on, on every interface.
    pub port: u16,
    /// The peers to dial at startup.
    pub bootnodes: Vec<Multiaddr>,
}

/// Who the user is.
#[derive(Debug, PartialEq, Eq)]
pub struct ProfileConfig {
    /// The name of the user.
    pub profile_name: Option<String>,
    /// The path of the file that holds the keys.
    pub pem_file: Option<String>,
}

/// The settings.
#[derive(Debug, PartialEq, Eq)]
pub struct Config {
    profile: ProfileConfig,
    node: NodeConfig,
}

/// A [`Config`] as mathematics.
pub struct ConfigView {
    pub profile_name: Option<Seq<char>>,
    pub pem_file: Option<Seq<char>>,
    pub interface_mode: InterfaceMode,
    pub port: u16,
    pub bootnodes: Seq<Seq<char>>,
}

impl View for Config {
    type V = ConfigView;

    closed spec fn view(&self) -> ConfigView {
        ConfigView {
            profile_name: view_of(self.profile.profile_name),
            pem_file: view_of(self.profile.pem_file),
            interface_mode: self.node.interface_mode,
            port: self.node.port,
            bootnodes: views(self.node.bootnodes@),
        }
    }
}

/// The addresses to listen on: for each family of `mode`, IPv4 before IPv6,
/// TCP and then QUIC on `port` of every interface.
pub open spec fn listen_addresses(mode: InterfaceMode, port: u16) -> Seq<Seq<char>> {
    match mode {
        InterfaceMode::IpV4 => seq![
            wildcard_text(IpFamily::V4, Transport::Tcp, port),
            wildcard_text(IpFamily::V4, Transport::Quic, port),
        ],
        InterfaceMode::IpV6 => seq![
            wildcard_text(IpFamily::V6, Transport::Tcp, port),
            wildcard_text(IpFamily::V6, Transport::Quic, port),
        ],
        InterfaceMode::Both => seq![
            wildcard_text(IpFamily::V4, Transport::Tcp, port),
            wildcard_text(IpFamily::V4, Transport::Quic, port),
            wildcard_text(IpFamily::V6, Transport::Tcp, port),
            wildcard_text(IpFamily::V6, Transport::Quic, port),
        ],
    }
}

fn clone_text(text: &Option<String>) -> (copy: Option<String>)
    ensures
        view_of(copy) == view_of(*text),
{
    match text {
        Some(t) => Some(t.clone()),
        None => None,
    }
}

impl Config {
    /// The settings with these two sections.
    pub fn new(profile: ProfileConfig, node: NodeConfig) -> (config: Config)
        ensures
            config@ == (ConfigView {
                profile_name: view_of(profile.profile_name),
                pem_file: view_of(profile.pem_file),
                interface_mode: node.interface_mode,
                port: node.port,
                bootnodes: views(node.bootnodes@),
            }),
    {
        Config { profile, node }
    }

    /// The addresses to listen on.
    pub fn get_addrs(&self) -> (addrs: Vec<Multiaddr>)
        ensures
            views(addrs@) == listen_addresses(self@.interface_mode, self@.port),
    {
        let mut families: Vec<IpFamily> = Vec::new();
        match self.node.interface_mode {
            InterfaceMode::IpV6 => {
                families.push(IpFamily::V6);
            },
            InterfaceMode::IpV4 => {
                families.push(IpFamily::V4);
            },
            InterfaceMode::Both => {
                families.push(IpFamily::V4);
                families.push(IpFamily::V6);
            },
        }
        let port = self.node.port;
        let mut addrs: Vec<Multiaddr> = Vec::new();
        let mut i: usize = 0;
        while i < families.len()
            invariant
                i <= families@.len(),
                addrs@.len() == 2 * i,
                forall|k: int|
                    0 <= k < i ==> (#[trigger] addrs@[2 * k])@ == wildcard_text(
                        families@[k],
                        Transport::Tcp,
                        port,
                    ) && addrs@[2 * k + 1]@ == wildcard_text(families@[k], Transport::Quic, port),
            decreases families@.len() - i,
        {
            addrs.push(Multiaddr::wildcard(families[i], Transport::Tcp, port));
            addrs.push(Multiaddr::wildcard(families[i], Transport::Quic, port));
            i = i + 1;
        }
        proof {
            let planned = listen_addresses(self@.interface_mode, self@.port);
            assert(views(addrs@).len() == planned.len());
            assert forall|n: int| 0 <= n < planned.len() implies views(addrs@)[n]
                == planned[n] by {
                let k = n / 2;
                assert(addrs@[2 * k]@ == wildcard_text(families@[k], Transport::Tcp, port));
            }
            assert(views(addrs@) =~= planned);
        }
        addrs
    }

    /// The peers to dial at startup.
    pub fn get_bootnodes(&self) -> (list: Vec<Multiaddr>)
        ensures
            views(list@) == self@.bootnodes,
    {
        clone_addresses(&self.node.bootnodes)
    }

    /// The name of the user, if the settings give one.
    pub fn get_name(&self) -> (name: Option<String>)
        ensures
            view_of(name) == self@.profile_name,
    {
        clone_text(&self.profile.profile_name)
    }

    /// The path of the file that holds the keys, if the settings give one.
    pub fn get_pem_file_path(&self) -> (path: Option<String>)
        ensures
            view_of(path) == self@.pem_file,
    {
        clone_text(&self.profile.pem_file)
    }
}

} // verus!

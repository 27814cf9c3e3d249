//! The profile of the user: a name, a secret key and what the user knows.
use vstd::prelude::*;
use crate::address::Multiaddr;
use crate::error::Error;
use crate::error::ErrorView;
use crate::model::views;
use crate::peer::fresh_secret;
use crate::peer::keypair_from_secret;
use crate::peer::keypair_of;
use crate::peer::PeerId;
use crate::settings::Config;
use crate::text::joined;

verus! {

/// A user that the profile knows.
#[derive(Debug, PartialEq, Eq)]
pub struct UserProfile {
    pub names: Vec<String>,
    pub id: PeerId,
    pub nodes: Vec<Multiaddr>,
}

/// A [`UserProfile`] as mathematics.
pub struct UserProfileView {
    pub names: Seq<Seq<char>>,
    pub id: Seq<u8>,
    pub nodes: Seq<Seq<char>>,
}

impl View for UserProfile {
    type V = UserProfileView;

    open spec fn view(&self) -> UserProfileView {
        UserProfileView {
            names: views(self.names@),
            id: self.id@,
            nodes: views(self.nodes@),
        }
    }
}

/// The profile.
#[derive(Debug)]
pub struct Profile {
    name: String,
    key: [u8; 32],
    known_users: Vec<UserProfile>,
    known_networks: Vec<String>,
}

/// A [`Profile`] as mathematics.
pub struct ProfileView {
    pub name: Seq<char>,
    pub key: Seq<u8>,
    pub known_users: Seq<UserProfileView>,
    pub known_networks: Seq<Seq<char>>,
}

impl View for Profile {
    type V = ProfileView;

    closed spec fn view(&self) -> ProfileView {
        ProfileView {
            name: self.name@,
            key: self.key@,
            known_users: views(self.known_users@),
            known_networks: views(self.known_networks@),
        }
    }
}

/// Where the settings say the profile is: its name and the path of its key
/// file. Each must be present and not empty; the name is looked at first.
pub open spec fn source_in(
    profile_name: Option<Seq<char>>,
    pem_file: Option<Seq<char>>,
) -> Result<(Seq<char>, Seq<char>), ErrorView> {
    if profile_name is None || profile_name.unwrap().len() == 0 {
        Err(ErrorView::Data("Missing name in config"@))
    } else if pem_file is None || pem_file.unwrap().len() == 0 {
        Err(ErrorView::Data("Missing pem file path in config"@))
    } else {
        Ok((profile_name.unwrap(), pem_file.unwrap()))
    }
}

impl Profile {
    /// The profile of `name` with this secret key, which knows nobody and
    /// no network.
    pub fn new_from_key(name: String, key: [u8; 32]) -> (profile: Profile)
        ensures
            profile@ == (ProfileView {
                name: name@,
                key: key@,
                known_users: Seq::empty(),
                known_networks: Seq::empty(),
            }),
    {
        let profile = Profile { name, key, known_users: Vec::new(), known_networks: Vec::new() };
        proof {
            assert(views(profile.known_users@) =~= Seq::empty());
            assert(views(profile.known_networks@) =~= Seq::empty());
        }
        profile
    }

    /// The profile of `name` with a new secret key.
    pub fn new(name: String) -> (profile: Result<Profile, Error>)
        ensures
            profile matches Ok(p) && p@.name == name@ && p@.known_users.len() == 0
                && p@.known_networks.len() == 0,
    {
        Ok(Profile::new_from_key(name, fresh_secret()))
    }

    /// Where `config` says the profile is: its name and the path of its
    /// key file, to be read and handed to [`Profile::new_from_key`].
    pub fn load_from_config(config: &Config) -> (source: Result<(String, String), Error>)
        ensures
            match source_in(config@.profile_name, config@.pem_file) {
                Ok((name, path)) => source matches Ok((n, p)) && n@ == name && p@ == path,
                Err(e) => source matches Err(got) && got@ == e,
            },
    {
        let name = match config.get_name() {
            Some(name) => name,
            None => { return Err(Error::Data("Missing name in config".to_owned())); },
        };
        if name.as_str().unicode_len() == 0 {
            return Err(Error::Data("Missing name in config".to_owned()));
        }
        let path = match config.get_pem_file_path() {
            Some(path) => path,
            None => { return Err(Error::Data("Missing pem file path in config".to_owned())); },
        };
        if path.as_str().unicode_len() == 0 {
            return Err(Error::Data("Missing pem file path in config".to_owned()));
        }
        Ok((name, path))
    }

    /// The name of the user.
    pub fn name(&self) -> (name: String)
        ensures
            name@ == self@.name,
    {
        self.name.clone()
    }

    /// The secret key.
    pub fn key(&self) -> (key: [u8; 32])
        ensures
            key@ == self@.key,
    {
        self.key
    }

    /// The users that the profile knows.
    pub fn known_users(&self) -> (users: &[UserProfile])
        ensures
            views(users@) == self@.known_users,
    {
        self.known_users.as_slice()
    }

    /// The networks that the profile knows.
    pub fn known_networks(&self) -> (networks: &[String])
        ensures
            views(networks@) == self@.known_networks,
    {
        self.known_networks.as_slice()
    }

    /// The identity that the secret key gives: always the same for the same
    /// key. A key of thirty-two bytes is never refused.
    pub fn keypair(&self) -> (keypair: Result<libp2p::identity::Keypair, Error>)
        ensures
            keypair matches Ok(made) && made == keypair_of(self@.key),
    {
        match keypair_from_secret(&self.key) {
            Ok(keypair) => Ok(keypair),
            Err(reason) => Err(Error::Keypair(joined("Failed decoding keypair: ", reason.as_str()))),
        }
    }
}

} // verus!

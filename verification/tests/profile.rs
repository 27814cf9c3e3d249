use ed25519_dalek::SigningKey;
use libp2p::identity::Keypair;
use rand::rngs::OsRng;
use retoro::address::Multiaddr;
use retoro::error::Error;
use retoro::profile::Profile;
use retoro::settings::Config;
use retoro::settings::InterfaceMode;
use retoro::settings::NodeConfig;
use retoro::settings::ProfileConfig;

#[test]
fn new_profile_from_keypair() -> Result<(), Error> {
    let mut rng = OsRng;
    let key = SigningKey::generate(&mut rng);
    let mut key_bytes = key.to_bytes();
    let keypair = Keypair::ed25519_from_bytes(&mut key_bytes)
        .map_err(|e| Error::Keypair(format!("Failed generating the keypair {e}")))?;
    let name = "Somename".to_string();
    let user = Profile::new_from_key(name, key.to_bytes());

    assert_eq!(user.name(), "Somename");
    assert_eq!(user.keypair().unwrap().public(), keypair.public());
    assert_eq!(user.known_users().len(), 0);
    assert_eq!(user.known_networks().len(), 0);
    Ok(())
}

#[test]
fn new_profile_has_a_key_of_its_own() {
    let a = Profile::new("a".to_string()).unwrap();
    let b = Profile::new("b".to_string()).unwrap();
    assert_eq!(a.name(), "a");
    assert_ne!(a.key(), b.key());
    assert_ne!(a.keypair().unwrap().public(), b.keypair().unwrap().public());
    assert_eq!(
        a.keypair().unwrap().public(),
        Keypair::ed25519_from_bytes(a.key()).unwrap().public()
    );
}

fn settings(name: Option<&str>, pem: Option<&str>, mode: InterfaceMode, port: u16) -> Config {
    Config::new(
        ProfileConfig {
            profile_name: name.map(|s| s.to_string()),
            pem_file: pem.map(|s| s.to_string()),
        },
        NodeConfig { interface_mode: mode, port, bootnodes: vec![] },
    )
}

#[test]
fn load_from_config_wants_a_name_and_a_path() {
    let ok = settings(Some("profile"), Some("privatekey.pem"), InterfaceMode::IpV4, 5511);
    assert_eq!(
        Profile::load_from_config(&ok),
        Ok(("profile".to_string(), "privatekey.pem".to_string()))
    );
    for config in [
        settings(None, Some("privatekey.pem"), InterfaceMode::IpV4, 1),
        settings(Some(""), Some("privatekey.pem"), InterfaceMode::IpV4, 1),
        settings(None, None, InterfaceMode::IpV4, 1),
    ] {
        assert_eq!(
            Profile::load_from_config(&config),
            Err(Error::Data("Missing name in config".to_string()))
        );
    }
    for config in [
        settings(Some("profile"), None, InterfaceMode::IpV4, 1),
        settings(Some("profile"), Some(""), InterfaceMode::IpV4, 1),
    ] {
        assert_eq!(
            Profile::load_from_config(&config),
            Err(Error::Data("Missing pem file path in config".to_string()))
        );
    }
}

fn texts(list: &[Multiaddr]) -> Vec<String> {
    list.iter().map(|a| a.as_str().to_string()).collect()
}

#[test]
fn get_addrs_lists_tcp_and_quic_for_each_family() {
    assert_eq!(
        texts(&settings(None, None, InterfaceMode::IpV4, 5511).get_addrs()),
        vec!["/ip4/0.0.0.0/tcp/5511", "/ip4/0.0.0.0/udp/5511/quic-v1"]
    );
    assert_eq!(
        texts(&settings(None, None, InterfaceMode::IpV6, 1).get_addrs()),
        vec!["/ip6/::/tcp/1", "/ip6/::/udp/1/quic-v1"]
    );
    assert_eq!(
        texts(&settings(None, None, InterfaceMode::Both, 65535).get_addrs()),
        vec![
            "/ip4/0.0.0.0/tcp/65535",
            "/ip4/0.0.0.0/udp/65535/quic-v1",
            "/ip6/::/tcp/65535",
            "/ip6/::/udp/65535/quic-v1"
        ]
    );
}

#[test]
fn settings_give_back_what_they_were_given() {
    let boot = Multiaddr::parse("/ip4/10.0.0.1/tcp/4001".to_string()).unwrap();
    let config = Config::new(
        ProfileConfig { profile_name: Some("n".to_string()), pem_file: None },
        NodeConfig { interface_mode: InterfaceMode::Both, port: 0, bootnodes: vec![boot.clone()] },
    );
    assert_eq!(config.get_name(), Some("n".to_string()));
    assert_eq!(config.get_pem_file_path(), None);
    assert_eq!(config.get_bootnodes(), vec![boot]);
}

#[test]
fn the_same_key_gives_the_same_identity() {
    let profile = Profile::new_from_key("n".to_string(), [7u8; 32]);
    let other = Profile::new_from_key("m".to_string(), [7u8; 32]);
    let different = Profile::new_from_key("n".to_string(), [8u8; 32]);
    let public = profile.keypair().unwrap().public();
    assert_eq!(profile.keypair().unwrap().public(), public);
    assert_eq!(other.keypair().unwrap().public(), public);
    assert_ne!(different.keypair().unwrap().public(), public);
    assert_eq!(Keypair::ed25519_from_bytes([7u8; 32]).unwrap().public(), public);
}

use libp2p::identity::Keypair;
use retoro::action::Action;
use retoro::chat::ChatChannel;
use retoro::chat::ChatMessage;
use retoro::chat::ChatSystem;
use retoro::error::Error;
use retoro::forum::time::Timestamp;
use retoro::forum::user::auth_user;
use retoro::forum::user::User;
use retoro::forum::user::UserResponse;
use retoro::message::deserialize_peer_id;
use retoro::message::serialize_peer_id;
use retoro::network::Network;
use retoro::network::NetworkSubscriptionFilter;
use retoro::network::NetworkType;
use retoro::overlay::message_key_of;
use retoro::overlay::OverlaySettings;
use retoro::peer::NodeRepr;
use retoro::peer::PeerId;
use retoro::text::joined;
use retoro::text::push_decimal;
use retoro::text::push_signed_decimal;
use retoro::wire::get_u128_be;
use retoro::wire::get_u64;
use retoro::wire::i64_bits;
use retoro::wire::i64_from_bits;
use retoro::wire::put_field;
use retoro::wire::put_u128_be;
use retoro::wire::put_u64;

#[test]
fn decimal_is_what_std_prints() {
    for n in [0u64, 1, 9, 10, 11, 99, 100, 5511, 65535, 1 << 32, u64::MAX] {
        let mut out = "x".to_string();
        push_decimal(&mut out, n);
        assert_eq!(out, format!("x{n}"));
    }
    for i in [i64::MIN, -10, -1, 0, 1, 10, i64::MAX] {
        let mut out = String::new();
        push_signed_decimal(&mut out, i);
        assert_eq!(out, i.to_string());
    }
    assert_eq!(joined("ab", "cd"), "abcd");
}

#[test]
fn integers_are_written_as_std_writes_them() {
    for v in [0u64, 1, 255, 256, 0x0102_0304_0506_0708, u64::MAX] {
        let mut out = vec![7u8];
        put_u64(&mut out, v);
        assert_eq!(&out[1..], &v.to_le_bytes());
        assert_eq!(get_u64(&out, 1), v);
    }
    for v in [0u128, 1, 1 << 64, 0x0102_0304_0506_0708_090a_0b0c_0d0e_0f10, u128::MAX] {
        let mut out = vec![7u8];
        put_u128_be(&mut out, v);
        assert_eq!(&out[1..], &v.to_be_bytes());
        assert_eq!(get_u128_be(&out, 1), v);
    }
    for t in [i64::MIN, -1, 0, 1, i64::MAX] {
        assert_eq!(i64_bits(t), t as u64);
        assert_eq!(i64_from_bits(t as u64), t);
    }
    let mut out = Vec::new();
    put_field(&mut out, b"abc");
    assert_eq!(out, vec![3, 0, 0, 0, 0, 0, 0, 0, b'a', b'b', b'c']);
}

#[test]
fn network_wants_a_name() {
    assert_eq!(
        Network::new(String::new(), NetworkType::Public),
        Err(Error::Swarm("Invalid network name: ".to_string()))
    );
    let network = Network::new("net".to_string(), NetworkType::Protected("s".to_string())).unwrap();
    assert_eq!(network.name(), "net");
    assert_eq!(network.network_type(), NetworkType::Protected("s".to_string()));
}

#[test]
fn only_a_public_network_is_joined() {
    let public = Network::new("net".to_string(), NetworkType::Public).unwrap();
    assert_eq!(public.connect_public(), Ok(Action::Subscribe("net".to_string())));
    let protected = Network::new("net".to_string(), NetworkType::Protected("s".to_string())).unwrap();
    assert_eq!(
        protected.connect_public(),
        Err(Error::Swarm("Unsupported command: connect to a protected network".to_string()))
    );
    let peer = PeerId::from_keypair(&Keypair::generate_ed25519());
    let private = Network::new("net".to_string(), NetworkType::Private(peer)).unwrap();
    assert_eq!(
        private.connect_public(),
        Err(Error::Swarm("Unsupported command: connect to a private network".to_string()))
    );
}

#[test]
fn the_subscription_filter_lets_every_topic_pass() {
    let mut filter = NetworkSubscriptionFilter::default();
    assert!(filter.can_subscribe("main"));
    assert!(filter.can_subscribe(""));
}

#[test]
fn overlay_settings_are_the_documented_defaults() {
    let settings = OverlaySettings::default();
    assert_eq!(settings.heartbeat_secs, 10);
    assert_eq!(settings.idle_timeout_secs, 60);
    assert!(settings.strict_validation);
    assert_eq!(settings.protocol_version, "/retoro/0.0.1");
}

#[test]
fn message_keys_tell_deliveries_apart() {
    let peer = PeerId::from_keypair(&Keypair::generate_ed25519());
    let other = PeerId::from_keypair(&Keypair::generate_ed25519());
    let base = message_key_of(5, b"data", "main", Some(&peer));
    assert_eq!(base, message_key_of(5, b"data", "main", Some(&peer)));
    assert_ne!(base, message_key_of(6, b"data", "main", Some(&peer)));
    assert_ne!(base, message_key_of(5, b"dat", "amain", Some(&peer)));
    assert_ne!(base, message_key_of(5, b"data", "mai", Some(&peer)));
    assert_ne!(base, message_key_of(5, b"data", "main", Some(&other)));
    assert_ne!(base, message_key_of(5, b"data", "main", None));
    let mut expected = vec![5u8, 0, 0, 0, 0, 0, 0, 0];
    expected.extend_from_slice(&[1, 0, 0, 0, 0, 0, 0, 0, b'd']);
    expected.extend_from_slice(&[1, 0, 0, 0, 0, 0, 0, 0, b't']);
    expected.push(0);
    assert_eq!(message_key_of(5, b"d", "t", None), expected);
}

fn user(hash: &str) -> User {
    User {
        id: 9,
        name: "ann".to_string(),
        password_hash: hash.to_string(),
        created_at: Timestamp::from_timestamp(1, 0).unwrap(),
        last_active: Timestamp::from_timestamp(2, 0).unwrap(),
        salt: "salt".to_string(),
    }
}

#[test]
fn a_user_is_let_in_by_the_right_hash_only() {
    assert_eq!(auth_user(Some(user("h")), &"h".to_string()), Ok(user("h")));
    assert_eq!(
        auth_user(Some(user("h")), &"x".to_string()),
        Err(retoro::forum::user::Error::AuthFailed)
    );
    assert_eq!(auth_user(None, &"h".to_string()), Err(retoro::forum::user::Error::UserNotFound));
    assert_eq!(retoro::forum::user::Error::AuthFailed.to_string(), "Authentication failed.");
    assert_eq!(
        retoro::forum::user::Error::UserNotFound.to_string(),
        "User account was not found."
    );
}

#[test]
fn a_user_is_shown_without_hash_and_salt() {
    assert_eq!(
        user("h").as_reponse(),
        UserResponse {
            id: 9,
            username: "ann".to_string(),
            created_at: Timestamp::from_timestamp(1, 0).unwrap(),
            last_active: Timestamp::from_timestamp(2, 0).unwrap(),
        }
    );
}

#[test]
fn a_remembered_peer_keeps_name_and_id() {
    let peer = PeerId::from_keypair(&Keypair::generate_ed25519());
    let node = NodeRepr::new("n".to_string(), peer.clone());
    assert_eq!(node.name, "n");
    assert_eq!(node.peer_id, peer);
    assert_eq!(node.clone(), node);
}

#[test]
fn a_chat_keeps_channels_by_name() {
    let mut chat = ChatSystem::new();
    assert!(chat.channels().is_empty());
    chat.join_channel("a".to_string(), "ann".to_string());
    chat.send_message("a".to_string(), "ann".to_string(), "hi".to_string());
    assert!(chat.channels().is_empty());
    chat.create_channel("a".to_string());
    chat.create_channel("b".to_string());
    chat.join_channel("b".to_string(), "bob".to_string());
    chat.join_channel("a".to_string(), "ann".to_string());
    chat.join_channel("a".to_string(), "bob".to_string());
    chat.send_message("a".to_string(), "ann".to_string(), "hi".to_string());
    chat.send_message("c".to_string(), "ann".to_string(), "lost".to_string());
    assert_eq!(
        chat.channels(),
        &[
            ChatChannel {
                name: "a".to_string(),
                participants: vec!["ann".to_string(), "bob".to_string()],
                messages: vec![ChatMessage { sender: "ann".to_string(), content: "hi".to_string() }],
            },
            ChatChannel {
                name: "b".to_string(),
                participants: vec!["bob".to_string()],
                messages: vec![],
            },
        ]
    );
    chat.create_channel("a".to_string());
    assert_eq!(
        chat.channels()[0],
        ChatChannel { name: "a".to_string(), participants: vec![], messages: vec![] }
    );
    assert_eq!(chat.channels().len(), 2);
}

#[test]
fn a_peer_id_is_written_as_a_field_and_read_back() {
    let peer = PeerId::from_keypair(&Keypair::generate_ed25519());
    let mut out = vec![9u8];
    serialize_peer_id(&peer, &mut out);
    let bytes = peer.to_bytes();
    assert_eq!(out[0], 9);
    assert_eq!(&out[1..9], &(bytes.len() as u64).to_le_bytes());
    assert_eq!(&out[9..], &bytes[..]);
    assert_eq!(deserialize_peer_id(&out[9..]), Some(peer));
    assert_eq!(deserialize_peer_id(&out[8..]), None);
}

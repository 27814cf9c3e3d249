use libp2p::multiaddr::Protocol;
use retoro::address::IpFamily;
use retoro::address::Multiaddr;
use retoro::address::Transport;

#[test]
fn parse_takes_what_libp2p_takes() {
    for text in [
        "/ip4/127.0.0.1/tcp/5511",
        "/ip4/0.0.0.0/udp/5511/quic-v1",
        "/ip6/::1/tcp/1",
        "/dns4/example.org/tcp/443",
        "",
    ] {
        let ours = Multiaddr::parse(text.to_string());
        assert!(text.parse::<libp2p::Multiaddr>().is_ok());
        assert_eq!(ours.expect("an address").as_str(), text);
    }
    for text in ["ip4/127.0.0.1", "/ip4/300.0.0.1/tcp/1", "/tcp/70000", "/nothing/1", "hello"] {
        assert!(text.parse::<libp2p::Multiaddr>().is_err());
        assert_eq!(Multiaddr::parse(text.to_string()), None);
    }
}

#[test]
fn wildcard_is_the_address_libp2p_builds() {
    for port in [0u16, 7, 80, 5511, 65535] {
        let v4 = Protocol::Ip4([0u8; 4].into());
        let v6 = Protocol::Ip6([0u16; 8].into());
        let cases = [
            (
                IpFamily::V4,
                Transport::Tcp,
                libp2p::Multiaddr::empty().with(v4.clone()).with(Protocol::Tcp(port)),
                format!("/ip4/0.0.0.0/tcp/{port}"),
            ),
            (
                IpFamily::V4,
                Transport::Quic,
                libp2p::Multiaddr::empty().with(v4).with(Protocol::Udp(port)).with(Protocol::QuicV1),
                format!("/ip4/0.0.0.0/udp/{port}/quic-v1"),
            ),
            (
                IpFamily::V6,
                Transport::Tcp,
                libp2p::Multiaddr::empty().with(v6.clone()).with(Protocol::Tcp(port)),
                format!("/ip6/::/tcp/{port}"),
            ),
            (
                IpFamily::V6,
                Transport::Quic,
                libp2p::Multiaddr::empty().with(v6).with(Protocol::Udp(port)).with(Protocol::QuicV1),
                format!("/ip6/::/udp/{port}/quic-v1"),
            ),
        ];
        for (family, transport, theirs, text) in cases {
            let ours = Multiaddr::wildcard(family, transport, port);
            assert_eq!(ours.as_str(), text);
            assert_eq!(ours.as_str().parse::<libp2p::Multiaddr>().unwrap(), theirs);
        }
    }
}

use peerlink::connector::{
    ConnectError, DefaultConnector, Ipv4Addr, Ipv6Addr, NonblockingEvent, NonblockingRetry,
    NonblockingStep, SocketAddr, SocketAddrV4, SocketAddrV6, Target, TargetError,
};
use peerlink::time::Duration;

fn v4(port: u16) -> SocketAddrV4 {
    SocketAddrV4 { ip: Ipv4Addr { bits: 0x7f000001 }, port }
}

fn v6(port: u16) -> SocketAddrV6 {
    SocketAddrV6 { ip: Ipv6Addr { bits: 1 }, port, flowinfo: 0, scope_id: 0 }
}

fn domain(name: &str, port: u16) -> Target {
    Target::Domain(name.to_string(), port)
}

#[test]
fn targets_from_addresses_and_domains() {
    assert!(Target::from(SocketAddr::V4(v4(1))) == Target::Socket(SocketAddr::V4(v4(1))));
    assert!(Target::from(v4(1)) == Target::Socket(SocketAddr::V4(v4(1))));
    assert!(Target::from(v6(1)) == Target::Socket(SocketAddr::V6(v6(1))));
    assert!(Target::from((v4(1).ip, 1)) == Target::Socket(SocketAddr::V4(v4(1))));
    assert!(Target::from((v6(1).ip, 1)) == Target::Socket(SocketAddr::V6(v6(1))));
    assert!(Target::from(("host", 7)) == domain("host", 7));
    assert!(Target::from(("host".to_string(), 7)) == domain("host", 7));
    assert!(domain("host", 7) != domain("host", 8));
    assert!(domain("host", 7) != domain("hose", 7));
    assert!(domain("host", 7) != Target::from(v4(7)));
    assert!(domain("host", 7).clone() == domain("host", 7));
}

#[test]
fn targets_from_text() {
    let socket = SocketAddr::V4(v4(80));
    assert!(Target::from_str("127.0.0.1:80", Some(socket)).unwrap() == Target::Socket(socket));
    assert!(Target::from_str("example.org:80", None).unwrap() == domain("example.org", 80));
    assert!(Target::from_str("h\u{f6}st:+443", None).unwrap() == domain("h\u{f6}st", 443));
    assert!(Target::from_str(":0", None).unwrap() == domain("", 0));
    assert!(Target::from_str("a:65535", None).unwrap() == domain("a", 65535));
    assert!(Target::from_str("a:000080", None).unwrap() == domain("a", 80));
    for text in ["", "localhost", "80"] {
        assert_eq!(Target::from_str(text, None).unwrap_err(), TargetError::NotATarget);
    }
    for text in ["a:", "a:b", "a:65536", "a:-1", "a:+", "a:1:2", "a: 1", "::1"] {
        assert_eq!(Target::from_str(text, None).unwrap_err(), TargetError::NotAPort);
    }
}

#[test]
fn text_of_targets() {
    assert_eq!(domain("example.org", 80).to_text(""), "example.org:80");
    assert_eq!(domain("", 0).to_text(""), ":0");
    assert_eq!(Target::from(v4(9)).to_text("127.0.0.1:9"), "127.0.0.1:9");
    for port in [0, 9, 10, 443, 65535] {
        let target = domain("peer.example", port);
        assert!(Target::from_str(&target.to_text(""), None).unwrap() == target);
    }
}

#[test]
fn default_connector_resolves_domains() {
    let addr = SocketAddr::V4(v4(1));
    let other = SocketAddr::V6(v6(2));
    assert_eq!(DefaultConnector.connect(&Target::Socket(addr), None).unwrap(), addr);
    assert_eq!(DefaultConnector.connect(&Target::Socket(addr), Some(other)).unwrap(), addr);
    assert_eq!(DefaultConnector.connect(&domain("a", 1), Some(other)).unwrap(), other);
    assert!(matches!(
        DefaultConnector.connect(&domain("a", 1), None),
        Err(ConnectError::Unresolved)
    ));
}

#[test]
fn nonblocking_mode_is_retried_until_the_deadline() {
    let would_block =
        || NonblockingEvent::WouldBlock(std::io::Error::from(std::io::ErrorKind::WouldBlock));
    let mut retry = NonblockingRetry::new();
    let mut pauses = Vec::new();
    loop {
        match retry.step(would_block()) {
            NonblockingStep::Pause(pause) => pauses.push(pause),
            NonblockingStep::Stop(result) => {
                assert_eq!(result.unwrap_err().kind(), std::io::ErrorKind::WouldBlock);
                break;
            }
        }
    }
    let expected: Vec<Duration> = [2, 4, 8, 16, 32, 64, 128, 256, 512, 1000, 1000, 1000, 1000]
        .iter()
        .map(|millis| Duration::from_millis(*millis))
        .collect();
    assert_eq!(pauses, expected);
    assert!(matches!(
        retry.step(NonblockingEvent::Done),
        NonblockingStep::Stop(Ok(()))
    ));
    assert!(matches!(
        NonblockingRetry::new().step(NonblockingEvent::Failed(std::io::Error::other("broken"))),
        NonblockingStep::Stop(Err(_))
    ));
}

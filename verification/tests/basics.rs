use peerlink::decimal::{parse_port, to_decimal};
use peerlink::std_vec::shrink_target;
use peerlink::time::{Duration, Instant};
use peerlink::PeerId;

#[test]
fn peer_ids() {
    let peer = PeerId::set_raw(41);
    assert_eq!(peer.inner(), 41);
    assert_eq!(peer.value(), 41);
    assert_eq!(peer.next(), PeerId::set_raw(42));
    assert!(peer < peer.next());
    assert_eq!(peer.to_text(), "41");
    assert_eq!(PeerId::set_raw(u64::MAX).to_text(), "18446744073709551615");
}

#[test]
fn decimal_numbers() {
    for n in [0, 7, 10, 99, 100, 65535, u64::MAX] {
        assert_eq!(to_decimal(n), n.to_string());
    }
    let port = |text: &str| parse_port(&text.chars().collect(), 0);
    assert_eq!(port("0"), Some(0));
    assert_eq!(port("+8333"), Some(8333));
    assert_eq!(port("65535"), Some(65535));
    assert_eq!(port("65536"), None);
    assert_eq!(port("99999999999999999999"), None);
    assert_eq!(port(""), None);
    assert_eq!(port("+"), None);
    assert_eq!(port("1a"), None);
    assert_eq!(parse_port(&"host:80".chars().collect(), 5), Some(80));
}

#[test]
fn spans_of_time() {
    assert_eq!(Duration::zero().nanos, 0);
    assert_eq!(Duration::from_secs(2).nanos, 2_000_000_000);
    assert_eq!(Duration::from_millis(3).nanos, 3_000_000);
    assert_eq!(Duration::from_millis(2999).as_secs(), 2);
    assert_eq!(Duration { nanos: 2_999_999 }.as_millis(), 2);
    assert_eq!(Instant { nanos: 9 }.since(Instant { nanos: 4 }).nanos, 5);
    assert_eq!(Instant { nanos: 4 }.since(Instant { nanos: 9 }).nanos, 0);
}

#[test]
fn shrink_targets() {
    assert_eq!(shrink_target(64, 4), Some(48));
    assert_eq!(shrink_target(64, 50), Some(50));
    assert_eq!(shrink_target(64, 64), None);
    assert_eq!(shrink_target(7, 0), Some(3));
    assert_eq!(shrink_target(0, 0), None);
}

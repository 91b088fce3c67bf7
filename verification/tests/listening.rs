use fungi_daemon::listen_addresses::{listen_outcome, quic_listen_addresses, tcp_listen_addresses};
use libp2p::Multiaddr;

#[test]
fn listen_addresses_cover_both_ip_versions() {
    assert_eq!(tcp_listen_addresses(4001), vec!["/ip4/0.0.0.0/tcp/4001".to_string(), "/ip6/::/tcp/4001".to_string()]);
    assert_eq!(
        quic_listen_addresses(0),
        vec!["/ip6/::/udp/0/quic-v1".to_string(), "/ip4/0.0.0.0/udp/0/quic-v1".to_string()]
    );
    for text in tcp_listen_addresses(4001).into_iter().chain(quic_listen_addresses(4002)) {
        let addr: Multiaddr = text.parse().unwrap();
        assert_eq!(addr.to_string(), text);
    }
}

#[test]
fn tcp_listening_is_required_and_quic_optional() {
    let ok = |a: &str| (a.to_string(), Ok(()));
    let failed = |a: &str, e: &str| (a.to_string(), Err(e.to_string()));
    assert_eq!(listen_outcome(&vec![ok("a"), failed("b", "in use")], &vec![ok("c")]), Ok(true));
    assert_eq!(listen_outcome(&vec![ok("a")], &vec![failed("c", "no udp"), failed("d", "no udp")]), Ok(false));
    assert_eq!(
        listen_outcome(&vec![failed("a", "in use"), failed("b", "denied")], &vec![ok("c")]),
        Err("Failed to open any TCP listen address: a: in use; b: denied".to_string())
    );
    assert_eq!(listen_outcome(&Vec::new(), &Vec::new()), Err("Failed to open any TCP listen address: ".to_string()));
}

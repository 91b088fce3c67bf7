//! What the daemon reports of its peer connections and streams, built from
//! the swarm's records as plain values.

use libp2p::Multiaddr;
use vstd::prelude::*;

use crate::model::{opt_text, texts};
use crate::ordered::{chars_lt, seq_lt};
use crate::sorting::{stable_sort, stable_sorted};
use crate::text::{chars_eq, chars_of, str_eq};

verus! {

#[verifier::external_type_specification]
#[verifier::external_body]
pub struct ExMultiaddr(Multiaddr);

/// The names of the protocols a multiaddress is made of, in order, such as
/// `ip4`, `tcp`, `p2p`, `p2p-circuit`.
pub uninterp spec fn multiaddr_protocols(a: Multiaddr) -> Seq<Seq<char>>;

/// A multiaddress written out, such as `/ip4/1.2.3.4/tcp/1`.
pub uninterp spec fn multiaddr_text(a: Multiaddr) -> Seq<char>;

/// `Multiaddr::protocol_stack` of libp2p's multiaddr crate: the name of
/// each protocol of the address, in order, and nothing else.
#[verifier::external_body]
fn protocol_names(addr: &Multiaddr) -> (r: Vec<String>)
    ensures
        texts(r@) == multiaddr_protocols(*addr),
{
    let mut out = Vec::new();
    for name in addr.protocol_stack() {
        out.push(name.to_string());
    }
    out
}

/// The `Display` of libp2p's `Multiaddr`: the address written out.
#[verifier::external_body]
fn address_text(addr: &Multiaddr) -> (r: String)
    ensures
        r@ == multiaddr_text(*addr),
{
    addr.to_string()
}

/// Whether a connection goes through a relay: its address holds the
/// circuit-relay protocol.
pub open spec fn relayed(addr: Multiaddr) -> bool {
    multiaddr_protocols(addr).contains("p2p-circuit"@)
}

/// Whether a connection's remote address goes through a relay.
pub fn is_relay_connection(remote_addr: &Multiaddr) -> (r: bool)
    ensures
        r == relayed(*remote_addr),
{
    let names = protocol_names(remote_addr);
    let mut i: usize = 0;
    while i < names.len()
        invariant
            i <= names.len(),
            texts(names@) == multiaddr_protocols(*remote_addr),
            forall|j: int| 0 <= j < i ==> texts(names@)[j] != "p2p-circuit"@,
        decreases names.len() - i,
    {
        if str_eq(names[i].as_str(), "p2p-circuit") {
            proof {
                assert(texts(names@)[i as int] == "p2p-circuit"@);
            }
            return true;
        }
        i = i + 1;
    }
    proof {
        if multiaddr_protocols(*remote_addr).contains("p2p-circuit"@) {
            let j = choose|j: int| 0 <= j < texts(names@).len() && texts(names@)[j] == "p2p-circuit"@;
            assert(texts(names@)[j] != "p2p-circuit"@);
        }
    }
    false
}

/// An address this node may be reachable at, as observed.
#[derive(Debug, Clone)]
pub struct ExternalAddressSnapshot {
    pub address: String,
    pub transport: String,
    pub freshness: String,
    pub recommend_refresh_before_dcutr: bool,
    pub first_observed_at: std::time::SystemTime,
    pub last_observed_at: std::time::SystemTime,
    pub confirmed_at: Option<std::time::SystemTime>,
    pub expired_at: Option<std::time::SystemTime>,
    pub observation_count: u64,
    pub sources: Vec<String>,
}

/// The state of a relay this node listens through.
#[derive(Debug, Clone)]
pub struct RelayEndpointStatusSnapshot {
    pub relay_addr: String,
    pub relay_peer_id: Option<String>,
    pub transport: String,
    pub listener_registered: bool,
    pub task_running: bool,
    pub current_direct_connection_id: Option<String>,
    pub last_listener_seen_at: Option<std::time::SystemTime>,
    pub last_listener_missing_at: Option<std::time::SystemTime>,
    pub last_reservation_accepted_at: Option<std::time::SystemTime>,
    pub last_reservation_established_at: Option<std::time::SystemTime>,
    pub last_reservation_renewed_at: Option<std::time::SystemTime>,
    pub last_direct_connection_closed_at: Option<std::time::SystemTime>,
    pub last_management_action: Option<String>,
    pub last_error: Option<String>,
}

/// Whether a peer is one of the relays this node listens through.
pub fn is_configured_relay_peer(statuses: &Vec<RelayEndpointStatusSnapshot>, peer_id: &str) -> (r: bool)
    ensures
        r == exists|i: int| 0 <= i < statuses@.len() && opt_text(#[trigger] statuses@[i].relay_peer_id) == Some(peer_id@),
{
    let mut i: usize = 0;
    while i < statuses.len()
        invariant
            i <= statuses.len(),
            forall|j: int| 0 <= j < i ==> opt_text(#[trigger] statuses@[j].relay_peer_id) != Some(peer_id@),
        decreases statuses.len() - i,
    {
        match &statuses[i].relay_peer_id {
            Some(p) => {
                if str_eq(p.as_str(), peer_id) {
                    return true;
                }
            },
            None => {},
        }
        i = i + 1;
    }
    false
}

/// An address a peer was observed at.
#[derive(Debug, Clone)]
pub struct PeerAddressSnapshot {
    pub peer_id: String,
    pub address: String,
    pub transport: String,
    pub source: String,
    pub freshness: String,
    pub first_observed_at: std::time::SystemTime,
    pub last_observed_at: std::time::SystemTime,
    pub expired_at: Option<std::time::SystemTime>,
    pub observation_count: u64,
}

/// The number of open streams of one protocol on a connection.
#[derive(Debug, Clone)]
pub struct ProtocolStreamCountSnapshot {
    pub protocol_name: String,
    pub stream_count: usize,
}

/// A connection to a peer.
#[derive(Debug, Clone)]
pub struct ConnectionSnapshot {
    pub peer_id: String,
    pub connection_id: String,
    pub direction: String,
    pub remote_addr: String,
    pub is_relay: bool,
    pub last_rtt_ms: u64,
    pub last_ping_at: Option<std::time::SystemTime>,
    pub active_streams_total: usize,
    pub active_streams_by_protocol: Vec<ProtocolStreamCountSnapshot>,
    pub policy_state: String,
    pub policy_reason: String,
    pub peer_name: String,
    pub peer_role: String,
}

/// An open stream.
#[derive(Debug, Clone)]
pub struct ActiveStreamSnapshot {
    pub stream_id: u64,
    pub peer_id: String,
    pub connection_id: String,
    pub protocol_name: String,
    pub opened_at: std::time::SystemTime,
}

/// The sum of the stream counts.
pub open spec fn stream_total(counts: Seq<(String, usize)>) -> int
    decreases counts.len(),
{
    if counts.len() == 0 {
        0
    } else {
        stream_total(counts.drop_last()) + counts.last().1
    }
}

/// How a connected peer is described: the relay this node is configured to
/// use, a peer reached through a relay, or a plain peer.
pub open spec fn peer_role_text(configured_relay: bool, is_relay: bool) -> Seq<char> {
    if configured_relay {
        "relay-carrier"@
    } else if is_relay {
        "relayed-peer"@
    } else {
        "peer"@
    }
}

/// The snapshot of one connection. The round trip is reported only when
/// both its time and when it was measured are known; the streams are
/// counted per protocol and in total.
pub fn build_connection_snapshot(
    peer_id: String,
    connection_id: String,
    inbound: bool,
    remote_addr: &Multiaddr,
    last_rtt_ms: Option<u64>,
    last_rtt_at: Option<std::time::SystemTime>,
    protocol_counts: Vec<(String, usize)>,
    policy_state: String,
    policy_reason: Option<String>,
    peer_name: Option<String>,
    configured_relay_peer: bool,
) -> (r: ConnectionSnapshot)
    requires
        stream_total(protocol_counts@) <= usize::MAX,
    ensures
        r.peer_id == peer_id,
        r.connection_id == connection_id,
        r.direction@ == (if inbound { "inbound"@ } else { "outbound"@ }),
        r.remote_addr@ == multiaddr_text(*remote_addr),
        r.is_relay == relayed(*remote_addr),
        match (last_rtt_ms, last_rtt_at) {
            (Some(ms), Some(at)) => r.last_rtt_ms == ms && r.last_ping_at == Some(at),
            _ => r.last_rtt_ms == 0 && r.last_ping_at is None,
        },
        r.active_streams_total == stream_total(protocol_counts@),
        r.active_streams_by_protocol@.len() == protocol_counts@.len(),
        forall|i: int|
            0 <= i < protocol_counts@.len() ==> (#[trigger] r.active_streams_by_protocol@[i]).protocol_name
                == protocol_counts@[i].0 && r.active_streams_by_protocol@[i].stream_count == protocol_counts@[i].1,
        r.policy_state == policy_state,
        r.policy_reason@ == (match policy_reason {
            Some(p) => p@,
            None => Seq::empty(),
        }),
        r.peer_name@ == (match peer_name {
            Some(n) => n@,
            None => Seq::empty(),
        }),
        r.peer_role@ == peer_role_text(configured_relay_peer, relayed(*remote_addr)),
{
    let is_relay = is_relay_connection(remote_addr);
    let remote_text = address_text(remote_addr);
    let (rtt, ping_at) = match (last_rtt_ms, last_rtt_at) {
        (Some(ms), Some(at)) => (ms, Some(at)),
        _ => (0, None),
    };
    let ghost counts = protocol_counts@;
    let mut by_protocol: Vec<ProtocolStreamCountSnapshot> = Vec::new();
    let mut total: usize = 0;
    let mut rest = protocol_counts;
    let mut n: usize = 0;
    let len = rest.len();
    proof {
        assert(counts.take(0) =~= Seq::<(String, usize)>::empty());
        assert(rest@ =~= counts.skip(0));
    }
    while rest.len() > 0
        invariant
            n + rest@.len() == counts.len(),
            counts.len() == len,
            rest@ == counts.skip(n as int),
            total == stream_total(counts.take(n as int)),
            stream_total(counts) <= usize::MAX,
            by_protocol@.len() == n,
            forall|i: int|
                0 <= i < n ==> (#[trigger] by_protocol@[i]).protocol_name == counts[i].0 && by_protocol@[i].stream_count
                    == counts[i].1,
        decreases rest.len(),
    {
        let (name, count) = rest.remove(0);
        proof {
            assert(counts.take(n + 1).drop_last() =~= counts.take(n as int));
            assert(counts.take(n + 1).last() == counts[n as int]);
            assert(rest@ =~= counts.skip(n + 1));
            lemma_stream_total_prefix(counts, n + 1);
        }
        total = total + count;
        by_protocol.push(ProtocolStreamCountSnapshot { protocol_name: name, stream_count: count });
        n = n + 1;
    }
    proof {
        assert(counts.take(n as int) =~= counts);
    }
    let role = if configured_relay_peer {
        "relay-carrier"
    } else if is_relay {
        "relayed-peer"
    } else {
        "peer"
    };
    ConnectionSnapshot {
        peer_id,
        connection_id,
        direction: if inbound {
            "inbound".to_owned()
        } else {
            "outbound".to_owned()
        },
        remote_addr: remote_text,
        is_relay,
        last_rtt_ms: rtt,
        last_ping_at: ping_at,
        active_streams_total: total,
        active_streams_by_protocol: by_protocol,
        policy_state,
        policy_reason: match policy_reason {
            Some(p) => p,
            None => String::new(),
        },
        peer_name: match peer_name {
            Some(p) => p,
            None => String::new(),
        },
        peer_role: role.to_owned(),
    }
}

/// A prefix of the counts sums to no more than all of them.
proof fn lemma_stream_total_prefix(counts: Seq<(String, usize)>, k: int)
    requires
        0 <= k <= counts.len(),
    ensures
        stream_total(counts.take(k)) <= stream_total(counts),
    decreases counts.len() - k,
{
    if k < counts.len() {
        lemma_stream_total_prefix(counts, k + 1);
        assert(counts.take(k + 1).drop_last() =~= counts.take(k));
    } else {
        assert(counts.take(k) =~= counts);
    }
}

/// Connections are listed by peer, then direction, then connection id.
pub open spec fn connection_before(a: ConnectionSnapshot, b: ConnectionSnapshot) -> bool {
    seq_lt(a.peer_id@, b.peer_id@) || (a.peer_id@ == b.peer_id@ && (seq_lt(a.direction@, b.direction@) || (
    a.direction@ == b.direction@ && seq_lt(a.connection_id@, b.connection_id@))))
}

/// Whether connection `a` is listed before connection `b`.
pub fn connection_comes_before(a: &ConnectionSnapshot, b: &ConnectionSnapshot) -> (r: bool)
    ensures
        r == connection_before(*a, *b),
{
    let ap = chars_of(a.peer_id.as_str());
    let bp = chars_of(b.peer_id.as_str());
    if chars_lt(&ap, &bp) {
        return true;
    }
    if !chars_eq(&ap, &bp) {
        return false;
    }
    let ad = chars_of(a.direction.as_str());
    let bd = chars_of(b.direction.as_str());
    if chars_lt(&ad, &bd) {
        return true;
    }
    if !chars_eq(&ad, &bd) {
        return false;
    }
    chars_lt(&chars_of(a.connection_id.as_str()), &chars_of(b.connection_id.as_str()))
}

/// The connections of the peers listed, or of one peer, in listing order;
/// see `connection_before`.
pub fn list_connections(connections: Vec<ConnectionSnapshot>, peer_filter: Option<&str>) -> (r: Vec<ConnectionSnapshot>)
    ensures
        r@ == stable_sorted(
            match peer_filter {
                Some(p) => connections@.filter(|c: ConnectionSnapshot| c.peer_id@ == p@),
                None => connections@,
            },
            |a: ConnectionSnapshot, b: ConnectionSnapshot| connection_before(a, b),
        ),
{
    let ghost kept = match peer_filter {
        Some(p) => connections@.filter(|c: ConnectionSnapshot| c.peer_id@ == p@),
        None => connections@,
    };
    let selected = match peer_filter {
        None => connections,
        Some(p) => {
            let mut out: Vec<ConnectionSnapshot> = Vec::new();
            let mut rest = connections;
            let ghost all = rest@;
            let mut n: usize = 0;
            let len = rest.len();
            proof {
                reveal(Seq::filter);
                assert(all.take(0).filter(|c: ConnectionSnapshot| c.peer_id@ == p@) =~= Seq::<ConnectionSnapshot>::empty());
                assert(rest@ =~= all.skip(0));
            }
            while rest.len() > 0
                invariant
                    n + rest@.len() == all.len(),
                    all.len() == len,
                    rest@ == all.skip(n as int),
                    out@ == all.take(n as int).filter(|c: ConnectionSnapshot| c.peer_id@ == p@),
                decreases rest.len(),
            {
                let c = rest.remove(0);
                proof {
                    assert(all.take(n + 1).drop_last() =~= all.take(n as int));
                    assert(all.take(n + 1).last() == c);
                    assert(rest@ =~= all.skip(n + 1));
                    reveal(Seq::filter);
                }
                if crate::text::str_eq(c.peer_id.as_str(), p) {
                    out.push(c);
                }
                n = n + 1;
            }
            proof {
                assert(all.take(n as int) =~= all);
            }
            out
        },
    };
    stable_sort(
        selected,
        connection_comes_before,
        Ghost(|a: ConnectionSnapshot, b: ConnectionSnapshot| connection_before(a, b)),
    )
}

/// Whether stream `a` is listed before stream `b`: by stream id.
pub fn stream_comes_before(a: &ActiveStreamSnapshot, b: &ActiveStreamSnapshot) -> (r: bool)
    ensures
        r == (a.stream_id < b.stream_id),
{
    a.stream_id < b.stream_id
}

/// Streams in stream id order.
pub fn sort_active_streams(streams: Vec<ActiveStreamSnapshot>) -> (r: Vec<ActiveStreamSnapshot>)
    ensures
        r@ == stable_sorted(streams@, |a: ActiveStreamSnapshot, b: ActiveStreamSnapshot| a.stream_id < b.stream_id),
{
    stable_sort(
        streams,
        stream_comes_before,
        Ghost(|a: ActiveStreamSnapshot, b: ActiveStreamSnapshot| a.stream_id < b.stream_id),
    )
}

} // verus!

//! The addresses a node listens on for peers, and whether listening came
//! up: TCP on every interface over IPv4 and IPv6 is required, QUIC over
//! UDP is used when it can be had.

use vstd::prelude::*;

use crate::text::{concat, decimal, push_str, u64_string};

verus! {

/// The TCP listen addresses for a port, on the unspecified IPv4 and IPv6
/// addresses, in the order they are tried.
pub open spec fn tcp_listen_texts(port: u16) -> Seq<Seq<char>> {
    seq!["/ip4/0.0.0.0/tcp/"@ + decimal(port as nat), "/ip6/::/tcp/"@ + decimal(port as nat)]
}

/// The QUIC listen addresses for a UDP port, IPv6 first, in the order they
/// are tried.
pub open spec fn quic_listen_texts(port: u16) -> Seq<Seq<char>> {
    seq![
        "/ip6/::/udp/"@ + decimal(port as nat) + "/quic-v1"@,
        "/ip4/0.0.0.0/udp/"@ + decimal(port as nat) + "/quic-v1"@,
    ]
}

/// The TCP addresses to listen on; see `tcp_listen_texts`.
pub fn tcp_listen_addresses(port: u16) -> (r: Vec<String>)
    ensures
        r@.len() == 2,
        r@[0]@ == tcp_listen_texts(port)[0],
        r@[1]@ == tcp_listen_texts(port)[1],
{
    let p = u64_string(port as u64);
    let mut r: Vec<String> = Vec::new();
    r.push(concat("/ip4/0.0.0.0/tcp/", p.as_str()));
    r.push(concat("/ip6/::/tcp/", p.as_str()));
    r
}

/// The QUIC addresses to listen on; see `quic_listen_texts`.
pub fn quic_listen_addresses(port: u16) -> (r: Vec<String>)
    ensures
        r@.len() == 2,
        r@[0]@ == quic_listen_texts(port)[0],
        r@[1]@ == quic_listen_texts(port)[1],
{
    let p = u64_string(port as u64);
    let mut a = concat("/ip6/::/udp/", p.as_str());
    push_str(&mut a, "/quic-v1");
    let mut b = concat("/ip4/0.0.0.0/udp/", p.as_str());
    push_str(&mut b, "/quic-v1");
    let mut r: Vec<String> = Vec::new();
    r.push(a);
    r.push(b);
    r
}

/// The failures among listen attempts, each as `address: error`, in order.
pub open spec fn listen_failures(attempts: Seq<(String, Result<(), String>)>) -> Seq<Seq<char>>
    decreases attempts.len(),
{
    if attempts.len() == 0 {
        Seq::empty()
    } else {
        let rest = listen_failures(attempts.drop_last());
        match attempts.last().1 {
            Ok(()) => rest,
            Err(e) => rest.push(attempts.last().0@ + ": "@ + e@),
        }
    }
}

/// Texts joined with `; ` between them.
pub open spec fn joined(texts: Seq<Seq<char>>) -> Seq<char>
    decreases texts.len(),
{
    if texts.len() == 0 {
        Seq::empty()
    } else if texts.len() == 1 {
        texts[0]
    } else {
        joined(texts.drop_last()) + "; "@ + texts.last()
    }
}

/// Whether some listen attempt succeeded.
pub open spec fn any_listening(attempts: Seq<(String, Result<(), String>)>) -> bool {
    exists|i: int| 0 <= i < attempts.len() && (#[trigger] attempts[i]).1 is Ok
}

/// Whether listening came up, from what listening on each TCP and QUIC
/// address gave: an error naming every TCP failure when no TCP address
/// could be opened; else whether some QUIC address was opened.
pub fn listen_outcome(
    tcp: &Vec<(String, Result<(), String>)>,
    quic: &Vec<(String, Result<(), String>)>,
) -> (r: Result<bool, String>)
    ensures
        match r {
            Ok(quic_listening) => any_listening(tcp@) && quic_listening == any_listening(quic@),
            Err(e) => !any_listening(tcp@) && e@ == "Failed to open any TCP listen address: "@ + joined(
                listen_failures(tcp@),
            ),
        },
{
    let mut tcp_listening = false;
    let mut errors = String::new();
    let mut count: usize = 0;
    let mut i: usize = 0;
    while i < tcp.len()
        invariant
            i <= tcp.len(),
            tcp_listening == any_listening(tcp@.take(i as int)),
            errors@ == joined(listen_failures(tcp@.take(i as int))),
            count == listen_failures(tcp@.take(i as int)).len(),
            count <= i,
        decreases tcp.len() - i,
    {
        proof {
            assert(tcp@.take(i + 1).drop_last() =~= tcp@.take(i as int));
            assert(tcp@.take(i + 1).last() == tcp@[i as int]);
        }
        match &tcp[i].1 {
            Ok(()) => {
                tcp_listening = true;
                proof {
                    assert(tcp@.take(i + 1)[i as int] == tcp@[i as int]);
                }
            },
            Err(e) => {
                if count > 0 {
                    push_str(&mut errors, "; ");
                }
                push_str(&mut errors, tcp[i].0.as_str());
                push_str(&mut errors, ": ");
                push_str(&mut errors, e.as_str());
                count = count + 1;
                proof {
                    let f = listen_failures(tcp@.take(i + 1));
                    assert(f.drop_last() =~= listen_failures(tcp@.take(i as int)));
                    if f.len() > 1 {
                        assert(joined(f) == joined(f.drop_last()) + "; "@ + f.last());
                    } else {
                        assert(listen_failures(tcp@.take(i as int)).len() == 0);
                        assert(f =~= seq![f.last()]);
                    }
                    assert(errors@ =~= joined(f));
                }
            },
        }
        proof {
            if tcp_listening {
                if !any_listening(tcp@.take(i as int)) {
                    assert(tcp@.take(i + 1)[i as int].1 is Ok);
                } else {
                    let j = choose|j: int| 0 <= j < i && (#[trigger] tcp@.take(i as int)[j]).1 is Ok;
                    assert(tcp@.take(i + 1)[j] == tcp@.take(i as int)[j]);
                }
            } else {
                assert forall|j: int| 0 <= j < i + 1 implies !((#[trigger] tcp@.take(i + 1)[j]).1 is Ok) by {
                    if j < i {
                        assert(tcp@.take(i + 1)[j] == tcp@.take(i as int)[j]);
                    }
                }
            }
        }
        i = i + 1;
    }
    proof {
        assert(tcp@.take(i as int) =~= tcp@);
    }
    if !tcp_listening {
        return Err(concat("Failed to open any TCP listen address: ", errors.as_str()));
    }
    let mut quic_listening = false;
    let mut k: usize = 0;
    while k < quic.len()
        invariant
            k <= quic.len(),
            quic_listening == any_listening(quic@.take(k as int)),
        decreases quic.len() - k,
    {
        if quic[k].1.is_ok() {
            quic_listening = true;
        }
        proof {
            if quic_listening {
                if !any_listening(quic@.take(k as int)) {
                    assert(quic@.take(k + 1)[k as int] == quic@[k as int]);
                } else {
                    let j = choose|j: int| 0 <= j < k && (#[trigger] quic@.take(k as int)[j]).1 is Ok;
                    assert(quic@.take(k + 1)[j] == quic@.take(k as int)[j]);
                }
            } else {
                assert forall|j: int| 0 <= j < k + 1 implies !((#[trigger] quic@.take(k + 1)[j]).1 is Ok) by {
                    if j < k {
                        assert(quic@.take(k + 1)[j] == quic@.take(k as int)[j]);
                    }
                }
            }
        }
        k = k + 1;
    }
    proof {
        assert(quic@.take(k as int) =~= quic@);
    }
    Ok(quic_listening)
}

} // verus!

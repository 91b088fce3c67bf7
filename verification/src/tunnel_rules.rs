//! The TCP tunnels a node runs: forwarding rules (a local listener whose
//! connections go to a peer) and listening rules (a stream protocol whose
//! streams go to a local TCP service), each kept under an id made from the
//! rule. The tasks that carry the traffic are run by the caller, keyed by
//! the same ids.

use vstd::prelude::*;

use crate::endpoint_listeners::ListeningRule;
use crate::model::{copy_opt, opt_text};
use crate::remote_services::TcpForwardingRule;
use crate::text::{concat, decimal, str_eq, string_from, u64_decimal};

verus! {

/// The id of a forwarding rule: its local address and the peer it goes to.
pub open spec fn forwarding_id(rule: TcpForwardingRule) -> Seq<char> {
    "forward_"@ + rule.local_host@ + ":"@ + decimal(rule.local_port as nat) + "_to_"@ + rule.remote_peer_id@
}

/// The id of a listening rule: the local service it reaches and what it
/// listens for, its stream protocol, or for a rule without one, the tunnel
/// port of its local port.
pub open spec fn listening_id(rule: ListeningRule) -> Seq<char> {
    "listen_"@ + rule.host@ + ":"@ + decimal(rule.port as nat) + match rule.protocol {
        Some(p) => "_for_"@ + p@,
        None => "_for_port_"@ + decimal(rule.port as nat),
    }
}

/// Whether some entry has the id.
pub open spec fn has_id<T>(s: Seq<(Seq<char>, T)>, id: Seq<char>) -> bool {
    exists|i: int| 0 <= i < s.len() && (#[trigger] s[i]).0 == id
}

/// No two entries share an id.
pub open spec fn ids_distinct<T>(s: Seq<(Seq<char>, T)>) -> bool {
    forall|i: int, j: int| 0 <= i < j < s.len() ==> (#[trigger] s[i]).0 != (#[trigger] s[j]).0
}

/// Entries by the characters of their ids.
pub open spec fn keyed<T>(v: Seq<(String, T)>) -> Seq<(Seq<char>, T)> {
    v.map_values(|e: (String, T)| (e.0@, e.1))
}

/// Whether a forwarding rule is the one given by its local address, its
/// peer, the peer's port and its stream protocol.
pub open spec fn forwarding_matches(
    rule: TcpForwardingRule,
    local_host: Seq<char>,
    local_port: u16,
    remote_peer_id: Seq<char>,
    remote_port: u16,
    remote_protocol: Option<Seq<char>>,
) -> bool {
    &&& rule.local_host@ == local_host
    &&& rule.local_port == local_port
    &&& rule.remote_peer_id@ == remote_peer_id
    &&& opt_text(rule.remote_protocol) == remote_protocol
    &&& rule.remote_port == remote_port
}

/// Whether a listening rule is the one given by its local address and
/// stream protocol.
pub open spec fn listening_matches(
    rule: ListeningRule,
    local_host: Seq<char>,
    local_port: u16,
    protocol: Option<Seq<char>>,
) -> bool {
    rule.host@ == local_host && rule.port == local_port && opt_text(rule.protocol) == protocol
}

/// The port of a rule in decimal.
fn port_text(port: u16) -> (r: String)
    ensures
        r@ == decimal(port as nat),
{
    let digits = u64_decimal(port as u64);
    string_from(digits.as_slice())
}

fn forwarding_rule_id(rule: &TcpForwardingRule) -> (id: String)
    ensures
        id@ == forwarding_id(*rule),
{
    let a = concat("forward_", rule.local_host.as_str());
    let b = concat(a.as_str(), ":");
    let port = port_text(rule.local_port);
    let c = concat(b.as_str(), port.as_str());
    let d = concat(c.as_str(), "_to_");
    let id = concat(d.as_str(), rule.remote_peer_id.as_str());
    proof {
        assert(id@ =~= forwarding_id(*rule));
    }
    id
}

fn listening_rule_id(rule: &ListeningRule) -> (id: String)
    ensures
        id@ == listening_id(*rule),
{
    let a = concat("listen_", rule.host.as_str());
    let b = concat(a.as_str(), ":");
    let port = port_text(rule.port);
    let c = concat(b.as_str(), port.as_str());
    let id = match &rule.protocol {
        Some(p) => {
            let d = concat(c.as_str(), "_for_");
            concat(d.as_str(), p.as_str())
        },
        None => {
            let d = concat(c.as_str(), "_for_port_");
            concat(d.as_str(), port.as_str())
        },
    };
    proof {
        assert(id@ =~= listening_id(*rule));
    }
    id
}

/// The position of the entry with an id.
fn id_position<T>(v: &Vec<(String, T)>, id: &str) -> (r: Option<usize>)
    ensures
        match r {
            Some(i) => i < v@.len() && keyed(v@)[i as int].0 == id@,
            None => !has_id(keyed(v@), id@),
        },
{
    let mut i: usize = 0;
    while i < v.len()
        invariant
            i <= v.len(),
            forall|j: int| 0 <= j < i ==> (#[trigger] keyed(v@)[j]).0 != id@,
        decreases v.len() - i,
    {
        if str_eq(v[i].0.as_str(), id) {
            return Some(i);
        }
        i = i + 1;
    }
    None
}

fn copy_forwarding_rule(rule: &TcpForwardingRule) -> (r: TcpForwardingRule)
    ensures
        r == *rule,
{
    TcpForwardingRule {
        local_host: rule.local_host.clone(),
        local_port: rule.local_port,
        remote_peer_id: rule.remote_peer_id.clone(),
        remote_protocol: copy_opt(&rule.remote_protocol),
        remote_port: rule.remote_port,
        remote_service_id: copy_opt(&rule.remote_service_id),
        remote_service_name: copy_opt(&rule.remote_service_name),
        remote_service_port_name: copy_opt(&rule.remote_service_port_name),
    }
}

fn copy_listening_rule(rule: &ListeningRule) -> (r: ListeningRule)
    ensures
        r == *rule,
{
    ListeningRule { host: rule.host.clone(), port: rule.port, protocol: copy_opt(&rule.protocol) }
}

fn opt_eq(a: &Option<String>, b: &Option<String>) -> (r: bool)
    ensures
        r == (opt_text(*a) == opt_text(*b)),
{
    match (a, b) {
        (Some(x), Some(y)) => str_eq(x.as_str(), y.as_str()),
        (None, None) => true,
        _ => false,
    }
}

/// What parsing a peer id gave: none when the text is a peer id, else the
/// message of the parse error.
pub uninterp spec fn peer_id_error(text: Seq<char>) -> Option<Seq<char>>;

/// `FromStr` of libp2p's `PeerId`: whether the text parses as a peer id,
/// and the message of the parse error when it does not.
#[verifier::external_body]
fn check_peer_id(text: &str) -> (r: Result<(), String>)
    ensures
        match r {
            Ok(()) => peer_id_error(text@) is None,
            Err(e) => peer_id_error(text@) == Some(e@),
        },
{
    match text.parse::<libp2p::PeerId>() {
        Ok(_) => Ok(()),
        Err(e) => Err(e.to_string()),
    }
}

/// Why a forwarding rule cannot be added to these rules, if it cannot: its
/// id is taken, its local address did not parse (`address_check` holds the
/// parse error's message), or its peer id does not parse.
pub open spec fn forwarding_refusal(
    s: Seq<(Seq<char>, TcpForwardingRule)>,
    rule: TcpForwardingRule,
    address_check: Result<(), String>,
) -> Option<Seq<char>> {
    if has_id(s, forwarding_id(rule)) {
        Some("Forwarding rule already exists: "@ + forwarding_id(rule))
    } else {
        match address_check {
            Err(e) => Some("Invalid local socket address: "@ + e@),
            Ok(()) => match peer_id_error(rule.remote_peer_id@) {
                Some(m) => Some("Invalid peer ID: "@ + m),
                None => None,
            },
        }
    }
}

/// Why a listening rule cannot be added to these rules, if it cannot: its
/// id is taken, or its local address did not parse (`address_check` holds
/// the parse error's message).
pub open spec fn listening_refusal(
    s: Seq<(Seq<char>, ListeningRule)>,
    rule: ListeningRule,
    address_check: Result<(), String>,
) -> Option<Seq<char>> {
    if has_id(s, listening_id(rule)) {
        Some("Listening rule already exists: "@ + listening_id(rule))
    } else {
        match address_check {
            Err(e) => Some("Invalid local socket address: "@ + e@),
            Ok(()) => None,
        }
    }
}

/// The forwarding rules after each rule of a list was added in turn, those
/// that were refused left out.
pub open spec fn forwarding_after_adds(
    s: Seq<(Seq<char>, TcpForwardingRule)>,
    rules: Seq<(TcpForwardingRule, Result<(), String>)>,
) -> Seq<(Seq<char>, TcpForwardingRule)>
    decreases rules.len(),
{
    if rules.len() == 0 {
        s
    } else {
        let prev = forwarding_after_adds(s, rules.drop_last());
        let r = rules.last().0;
        if forwarding_refusal(prev, r, rules.last().1) is None {
            prev.push((forwarding_id(r), r))
        } else {
            prev
        }
    }
}

/// The listening rules after each rule of a list was added in turn, those
/// that were refused left out.
pub open spec fn listening_after_adds(
    s: Seq<(Seq<char>, ListeningRule)>,
    rules: Seq<(ListeningRule, Result<(), String>)>,
) -> Seq<(Seq<char>, ListeningRule)>
    decreases rules.len(),
{
    if rules.len() == 0 {
        s
    } else {
        let prev = listening_after_adds(s, rules.drop_last());
        let r = rules.last().0;
        if listening_refusal(prev, r, rules.last().1) is None {
            prev.push((listening_id(r), r))
        } else {
            prev
        }
    }
}

fn copy_check(c: &Result<(), String>) -> (r: Result<(), String>)
    ensures
        r == *c,
{
    match c {
        Ok(u) => Ok(*u),
        Err(e) => Err(e.clone()),
    }
}

/// The forwarding and listening rules a node runs, each under its id.
pub struct TcpTunnelingControl {
    forwarding: Vec<(String, TcpForwardingRule)>,
    listening: Vec<(String, ListeningRule)>,
}

impl TcpTunnelingControl {
    /// The forwarding rules, each with its id, in the order they came.
    pub closed spec fn forwarding_rules(&self) -> Seq<(Seq<char>, TcpForwardingRule)> {
        keyed(self.forwarding@)
    }

    /// The listening rules, each with its id, in the order they came.
    pub closed spec fn listening_rules(&self) -> Seq<(Seq<char>, ListeningRule)> {
        keyed(self.listening@)
    }

    /// Each rule is kept under the id made from it, and no id is used twice.
    pub open spec fn wf(&self) -> bool {
        &&& forall|i: int|
            0 <= i < self.forwarding_rules().len() ==> (#[trigger] self.forwarding_rules()[i]).0 == forwarding_id(
                self.forwarding_rules()[i].1,
            )
        &&& forall|i: int|
            0 <= i < self.listening_rules().len() ==> (#[trigger] self.listening_rules()[i]).0 == listening_id(
                self.listening_rules()[i].1,
            )
        &&& ids_distinct(self.forwarding_rules())
        &&& ids_distinct(self.listening_rules())
    }

    /// No rules.
    pub fn new() -> (c: TcpTunnelingControl)
        ensures
            c.wf(),
            c.forwarding_rules() == Seq::<(Seq<char>, TcpForwardingRule)>::empty(),
            c.listening_rules() == Seq::<(Seq<char>, ListeningRule)>::empty(),
    {
        let c = TcpTunnelingControl { forwarding: Vec::new(), listening: Vec::new() };
        proof {
            assert(c.forwarding_rules() =~= Seq::<(Seq<char>, TcpForwardingRule)>::empty());
            assert(c.listening_rules() =~= Seq::<(Seq<char>, ListeningRule)>::empty());
        }
        c
    }

    /// Adds a forwarding rule under its id, unless it is refused; see
    /// `forwarding_refusal`. `address_check` is what parsing the rule's local
    /// address as a socket address gave.
    pub fn add_forwarding_rule(&mut self, rule: TcpForwardingRule, address_check: Result<(), String>) -> (r: Result<
        String,
        String,
    >)
        requires
            old(self).wf(),
        ensures
            final(self).wf(),
            final(self).listening_rules() == old(self).listening_rules(),
            match r {
                Ok(id) => forwarding_refusal(old(self).forwarding_rules(), rule, address_check) is None && id@
                    == forwarding_id(rule) && final(self).forwarding_rules() == old(self).forwarding_rules().push(
                    (id@, rule),
                ),
                Err(e) => forwarding_refusal(old(self).forwarding_rules(), rule, address_check) == Some(e@)
                    && final(self).forwarding_rules() == old(self).forwarding_rules(),
            },
    {
        let id = forwarding_rule_id(&rule);
        match id_position(&self.forwarding, id.as_str()) {
            Some(i) => {
                proof {
                    assert(old(self).forwarding_rules()[i as int].0 == forwarding_id(rule));
                }
                return Err(concat("Forwarding rule already exists: ", id.as_str()));
            },
            None => {},
        }
        match address_check {
            Err(e) => {
                return Err(concat("Invalid local socket address: ", e.as_str()));
            },
            Ok(()) => {},
        }
        match check_peer_id(rule.remote_peer_id.as_str()) {
            Err(m) => {
                return Err(concat("Invalid peer ID: ", m.as_str()));
            },
            Ok(()) => {},
        }
        let ghost before = self.forwarding@;
        let out = id.clone();
        self.forwarding.push((id, rule));
        proof {
            assert(keyed(self.forwarding@) =~= keyed(before).push((forwarding_id(rule), rule)));
            let s = keyed(self.forwarding@);
            assert forall|i: int, j: int| 0 <= i < j < s.len() implies (#[trigger] s[i]).0 != (#[trigger] s[j]).0 by {
                if j == s.len() - 1 {
                    assert(keyed(before)[i] == s[i]);
                }
            }
        }
        Ok(out)
    }

    /// Adds a listening rule under its id, unless it is refused; see
    /// `listening_refusal`. `address_check` is what parsing the rule's local
    /// address as a socket address gave.
    pub fn add_listening_rule(&mut self, rule: ListeningRule, address_check: Result<(), String>) -> (r: Result<
        String,
        String,
    >)
        requires
            old(self).wf(),
        ensures
            final(self).wf(),
            final(self).forwarding_rules() == old(self).forwarding_rules(),
            match r {
                Ok(id) => listening_refusal(old(self).listening_rules(), rule, address_check) is None && id@
                    == listening_id(rule) && final(self).listening_rules() == old(self).listening_rules().push(
                    (id@, rule),
                ),
                Err(e) => listening_refusal(old(self).listening_rules(), rule, address_check) == Some(e@)
                    && final(self).listening_rules() == old(self).listening_rules(),
            },
    {
        let id = listening_rule_id(&rule);
        match id_position(&self.listening, id.as_str()) {
            Some(i) => {
                proof {
                    assert(old(self).listening_rules()[i as int].0 == listening_id(rule));
                }
                return Err(concat("Listening rule already exists: ", id.as_str()));
            },
            None => {},
        }
        match address_check {
            Err(e) => {
                return Err(concat("Invalid local socket address: ", e.as_str()));
            },
            Ok(()) => {},
        }
        let ghost before = self.listening@;
        let out = id.clone();
        self.listening.push((id, rule));
        proof {
            assert(keyed(self.listening@) =~= keyed(before).push((listening_id(rule), rule)));
            let s = keyed(self.listening@);
            assert forall|i: int, j: int| 0 <= i < j < s.len() implies (#[trigger] s[i]).0 != (#[trigger] s[j]).0 by {
                if j == s.len() - 1 {
                    assert(keyed(before)[i] == s[i]);
                }
            }
        }
        Ok(out)
    }

    /// Removes the forwarding rule with an id; an error when there is none.
    pub fn remove_forwarding_rule(&mut self, rule_id: &str) -> (r: Result<(), String>)
        requires
            old(self).wf(),
        ensures
            final(self).wf(),
            final(self).listening_rules() == old(self).listening_rules(),
            match r {
                Ok(()) => exists|i: int|
                    0 <= i < old(self).forwarding_rules().len() && (#[trigger] old(self).forwarding_rules()[i]).0
                        == rule_id@ && final(self).forwarding_rules() == old(self).forwarding_rules().remove(i),
                Err(e) => !has_id(old(self).forwarding_rules(), rule_id@) && e@ == "Forwarding rule not found: "@
                    + rule_id@ && final(self).forwarding_rules() == old(self).forwarding_rules(),
            },
    {
        match id_position(&self.forwarding, rule_id) {
            Some(i) => {
                self.remove_forwarding_at(i);
                Ok(())
            },
            None => Err(concat("Forwarding rule not found: ", rule_id)),
        }
    }

    fn remove_forwarding_at(&mut self, i: usize)
        requires
            old(self).wf(),
            i < old(self).forwarding_rules().len(),
        ensures
            final(self).wf(),
            final(self).listening_rules() == old(self).listening_rules(),
            final(self).forwarding_rules() == old(self).forwarding_rules().remove(i as int),
    {
        let ghost before = self.forwarding@;
        self.forwarding.remove(i);
        proof {
            assert(keyed(self.forwarding@) =~= keyed(before).remove(i as int));
            let s = keyed(self.forwarding@);
            let t = keyed(before);
            assert forall|a: int| 0 <= a < s.len() implies s[a] == t[if a < i { a } else { a + 1 }] by {}
            assert forall|a: int, b: int| 0 <= a < b < s.len() implies (#[trigger] s[a]).0 != (#[trigger] s[b]).0 by {
                let a2 = if a < i { a } else { a + 1 };
                let b2 = if b < i { b } else { b + 1 };
                assert(t[a2].0 != t[b2].0);
            }
            assert forall|a: int| 0 <= a < s.len() implies (#[trigger] s[a]).0 == forwarding_id(s[a].1) by {
                let a2 = if a < i { a } else { a + 1 };
                assert(t[a2].0 == forwarding_id(t[a2].1));
            }
        }
    }

    /// Removes the listening rule with an id; an error when there is none.
    pub fn remove_listening_rule(&mut self, rule_id: &str) -> (r: Result<(), String>)
        requires
            old(self).wf(),
        ensures
            final(self).wf(),
            final(self).forwarding_rules() == old(self).forwarding_rules(),
            match r {
                Ok(()) => exists|i: int|
                    0 <= i < old(self).listening_rules().len() && (#[trigger] old(self).listening_rules()[i]).0
                        == rule_id@ && final(self).listening_rules() == old(self).listening_rules().remove(i),
                Err(e) => !has_id(old(self).listening_rules(), rule_id@) && e@ == "Listening rule not found: "@
                    + rule_id@ && final(self).listening_rules() == old(self).listening_rules(),
            },
    {
        match id_position(&self.listening, rule_id) {
            Some(i) => {
                self.remove_listening_at(i);
                Ok(())
            },
            None => Err(concat("Listening rule not found: ", rule_id)),
        }
    }

    fn remove_listening_at(&mut self, i: usize)
        requires
            old(self).wf(),
            i < old(self).listening_rules().len(),
        ensures
            final(self).wf(),
            final(self).forwarding_rules() == old(self).forwarding_rules(),
            final(self).listening_rules() == old(self).listening_rules().remove(i as int),
    {
        let ghost before = self.listening@;
        self.listening.remove(i);
        proof {
            assert(keyed(self.listening@) =~= keyed(before).remove(i as int));
            let s = keyed(self.listening@);
            let t = keyed(before);
            assert forall|a: int| 0 <= a < s.len() implies s[a] == t[if a < i { a } else { a + 1 }] by {}
            assert forall|a: int, b: int| 0 <= a < b < s.len() implies (#[trigger] s[a]).0 != (#[trigger] s[b]).0 by {
                let a2 = if a < i { a } else { a + 1 };
                let b2 = if b < i { b } else { b + 1 };
                assert(t[a2].0 != t[b2].0);
            }
            assert forall|a: int| 0 <= a < s.len() implies (#[trigger] s[a]).0 == listening_id(s[a].1) by {
                let a2 = if a < i { a } else { a + 1 };
                assert(t[a2].0 == listening_id(t[a2].1));
            }
        }
    }

    /// The forwarding rules with their ids.
    pub fn get_forwarding_rules(&self) -> (r: Vec<(String, TcpForwardingRule)>)
        ensures
            keyed(r@) == self.forwarding_rules(),
    {
        let mut out: Vec<(String, TcpForwardingRule)> = Vec::new();
        let mut i: usize = 0;
        while i < self.forwarding.len()
            invariant
                i <= self.forwarding.len(),
                keyed(out@) == keyed(self.forwarding@).take(i as int),
            decreases self.forwarding.len() - i,
        {
            let entry = (self.forwarding[i].0.clone(), copy_forwarding_rule(&self.forwarding[i].1));
            let ghost before = out@;
            out.push(entry);
            proof {
                assert(keyed(out@) =~= keyed(before).push(keyed(self.forwarding@)[i as int]));
                assert(keyed(self.forwarding@).take(i + 1) =~= keyed(self.forwarding@).take(i as int).push(
                    keyed(self.forwarding@)[i as int],
                ));
            }
            i = i + 1;
        }
        proof {
            assert(keyed(self.forwarding@).take(i as int) =~= keyed(self.forwarding@));
        }
        out
    }

    /// The listening rules with their ids.
    pub fn get_listening_rules(&self) -> (r: Vec<(String, ListeningRule)>)
        ensures
            keyed(r@) == self.listening_rules(),
    {
        let mut out: Vec<(String, ListeningRule)> = Vec::new();
        let mut i: usize = 0;
        while i < self.listening.len()
            invariant
                i <= self.listening.len(),
                keyed(out@) == keyed(self.listening@).take(i as int),
            decreases self.listening.len() - i,
        {
            let entry = (self.listening[i].0.clone(), copy_listening_rule(&self.listening[i].1));
            let ghost before = out@;
            out.push(entry);
            proof {
                assert(keyed(out@) =~= keyed(before).push(keyed(self.listening@)[i as int]));
                assert(keyed(self.listening@).take(i + 1) =~= keyed(self.listening@).take(i as int).push(
                    keyed(self.listening@)[i as int],
                ));
            }
            i = i + 1;
        }
        proof {
            assert(keyed(self.listening@).take(i as int) =~= keyed(self.listening@));
        }
        out
    }

    /// Drops every rule.
    pub fn stop_all(&mut self)
        ensures
            final(self).wf(),
            final(self).forwarding_rules() == Seq::<(Seq<char>, TcpForwardingRule)>::empty(),
            final(self).listening_rules() == Seq::<(Seq<char>, ListeningRule)>::empty(),
    {
        self.forwarding = Vec::new();
        self.listening = Vec::new();
        proof {
            assert(self.forwarding_rules() =~= Seq::<(Seq<char>, TcpForwardingRule)>::empty());
            assert(self.listening_rules() =~= Seq::<(Seq<char>, ListeningRule)>::empty());
        }
    }

    /// Removes the first forwarding rule with this local address, peer,
    /// peer port and stream protocol; an error naming the rule when there
    /// is none.
    pub fn remove_tcp_forwarding_rule_with_protocol(
        &mut self,
        local_host: String,
        local_port: u16,
        remote_peer_id: String,
        remote_port: u16,
        remote_protocol: Option<String>,
    ) -> (r: Result<(), String>)
        requires
            old(self).wf(),
        ensures
            final(self).wf(),
            final(self).listening_rules() == old(self).listening_rules(),
            match r {
                Ok(()) => exists|i: int|
                    0 <= i < old(self).forwarding_rules().len() && forwarding_matches(
                        #[trigger] old(self).forwarding_rules()[i].1,
                        local_host@,
                        local_port,
                        remote_peer_id@,
                        remote_port,
                        opt_text(remote_protocol),
                    ) && (forall|j: int|
                        0 <= j < i ==> !forwarding_matches(
                            #[trigger] old(self).forwarding_rules()[j].1,
                            local_host@,
                            local_port,
                            remote_peer_id@,
                            remote_port,
                            opt_text(remote_protocol),
                        )) && final(self).forwarding_rules() == old(self).forwarding_rules().remove(i),
                Err(e) => (forall|j: int|
                    0 <= j < old(self).forwarding_rules().len() ==> !forwarding_matches(
                        #[trigger] old(self).forwarding_rules()[j].1,
                        local_host@,
                        local_port,
                        remote_peer_id@,
                        remote_port,
                        opt_text(remote_protocol),
                    )) && e@ == "Forwarding rule not found: "@ + local_host@ + ":"@ + decimal(local_port as nat)
                    + " -> "@ + remote_peer_id@ + ":"@ + decimal(remote_port as nat) && final(self).forwarding_rules()
                    == old(self).forwarding_rules(),
            },
    {
        let mut i: usize = 0;
        while i < self.forwarding.len()
            invariant
                i <= self.forwarding.len(),
                self.wf(),
                self.forwarding_rules() == old(self).forwarding_rules(),
                self.listening_rules() == old(self).listening_rules(),
                forall|j: int|
                    0 <= j < i ==> !forwarding_matches(
                        #[trigger] keyed(self.forwarding@)[j].1,
                        local_host@,
                        local_port,
                        remote_peer_id@,
                        remote_port,
                        opt_text(remote_protocol),
                    ),
            decreases self.forwarding.len() - i,
        {
            let rule = &self.forwarding[i].1;
            if str_eq(rule.local_host.as_str(), local_host.as_str()) && rule.local_port == local_port && str_eq(
                rule.remote_peer_id.as_str(),
                remote_peer_id.as_str(),
            ) && opt_eq(&rule.remote_protocol, &remote_protocol) && rule.remote_port == remote_port {
                proof {
                    assert(keyed(self.forwarding@)[i as int].1 == self.forwarding@[i as int].1);
                }
                self.remove_forwarding_at(i);
                return Ok(());
            }
            proof {
                assert(keyed(self.forwarding@)[i as int].1 == self.forwarding@[i as int].1);
            }
            i = i + 1;
        }
        let a = concat("Forwarding rule not found: ", local_host.as_str());
        let b = concat(a.as_str(), ":");
        let lp = port_text(local_port);
        let c = concat(b.as_str(), lp.as_str());
        let d = concat(c.as_str(), " -> ");
        let e = concat(d.as_str(), remote_peer_id.as_str());
        let f = concat(e.as_str(), ":");
        let rp = port_text(remote_port);
        let msg = concat(f.as_str(), rp.as_str());
        proof {
            assert(msg@ =~= "Forwarding rule not found: "@ + local_host@ + ":"@ + decimal(local_port as nat) + " -> "@
                + remote_peer_id@ + ":"@ + decimal(remote_port as nat));
        }
        Err(msg)
    }

    /// Removes the first forwarding rule with this local address, peer and
    /// peer port that names no stream protocol.
    pub fn remove_tcp_forwarding_rule(
        &mut self,
        local_host: String,
        local_port: u16,
        remote_peer_id: String,
        remote_port: u16,
    ) -> (r: Result<(), String>)
        requires
            old(self).wf(),
        ensures
            final(self).wf(),
            final(self).listening_rules() == old(self).listening_rules(),
            match r {
                Ok(()) => exists|i: int|
                    0 <= i < old(self).forwarding_rules().len() && forwarding_matches(
                        #[trigger] old(self).forwarding_rules()[i].1,
                        local_host@,
                        local_port,
                        remote_peer_id@,
                        remote_port,
                        None,
                    ) && (forall|j: int|
                        0 <= j < i ==> !forwarding_matches(
                            #[trigger] old(self).forwarding_rules()[j].1,
                            local_host@,
                            local_port,
                            remote_peer_id@,
                            remote_port,
                            None,
                        )) && final(self).forwarding_rules() == old(self).forwarding_rules().remove(i),
                Err(e) => (forall|j: int|
                    0 <= j < old(self).forwarding_rules().len() ==> !forwarding_matches(
                        #[trigger] old(self).forwarding_rules()[j].1,
                        local_host@,
                        local_port,
                        remote_peer_id@,
                        remote_port,
                        None,
                    )) && e@ == "Forwarding rule not found: "@ + local_host@ + ":"@ + decimal(local_port as nat)
                    + " -> "@ + remote_peer_id@ + ":"@ + decimal(remote_port as nat) && final(self).forwarding_rules()
                    == old(self).forwarding_rules(),
            },
    {
        self.remove_tcp_forwarding_rule_with_protocol(local_host, local_port, remote_peer_id, remote_port, None)
    }

    /// Removes the first listening rule with this local address and stream
    /// protocol; an error naming the address when there is none.
    pub fn remove_tcp_listening_rule_with_protocol(
        &mut self,
        local_host: String,
        local_port: u16,
        protocol: Option<String>,
    ) -> (r: Result<(), String>)
        requires
            old(self).wf(),
        ensures
            final(self).wf(),
            final(self).forwarding_rules() == old(self).forwarding_rules(),
            match r {
                Ok(()) => exists|i: int|
                    0 <= i < old(self).listening_rules().len() && listening_matches(
                        #[trigger] old(self).listening_rules()[i].1,
                        local_host@,
                        local_port,
                        opt_text(protocol),
                    ) && (forall|j: int|
                        0 <= j < i ==> !listening_matches(
                            #[trigger] old(self).listening_rules()[j].1,
                            local_host@,
                            local_port,
                            opt_text(protocol),
                        )) && final(self).listening_rules() == old(self).listening_rules().remove(i),
                Err(e) => (forall|j: int|
                    0 <= j < old(self).listening_rules().len() ==> !listening_matches(
                        #[trigger] old(self).listening_rules()[j].1,
                        local_host@,
                        local_port,
                        opt_text(protocol),
                    )) && e@ == "Listening rule not found: "@ + local_host@ + ":"@ + decimal(local_port as nat)
                    && final(self).listening_rules() == old(self).listening_rules(),
            },
    {
        let mut i: usize = 0;
        while i < self.listening.len()
            invariant
                i <= self.listening.len(),
                self.wf(),
                self.forwarding_rules() == old(self).forwarding_rules(),
                self.listening_rules() == old(self).listening_rules(),
                forall|j: int|
                    0 <= j < i ==> !listening_matches(
                        #[trigger] keyed(self.listening@)[j].1,
                        local_host@,
                        local_port,
                        opt_text(protocol),
                    ),
            decreases self.listening.len() - i,
        {
            let rule = &self.listening[i].1;
            if str_eq(rule.host.as_str(), local_host.as_str()) && rule.port == local_port && opt_eq(
                &rule.protocol,
                &protocol,
            ) {
                proof {
                    assert(keyed(self.listening@)[i as int].1 == self.listening@[i as int].1);
                }
                self.remove_listening_at(i);
                return Ok(());
            }
            proof {
                assert(keyed(self.listening@)[i as int].1 == self.listening@[i as int].1);
            }
            i = i + 1;
        }
        let a = concat("Listening rule not found: ", local_host.as_str());
        let b = concat(a.as_str(), ":");
        let lp = port_text(local_port);
        let msg = concat(b.as_str(), lp.as_str());
        proof {
            assert(msg@ =~= "Listening rule not found: "@ + local_host@ + ":"@ + decimal(local_port as nat));
        }
        Err(msg)
    }

    /// Removes the first listening rule with this local address that names
    /// no stream protocol.
    pub fn remove_tcp_listening_rule(&mut self, local_host: String, local_port: u16) -> (r: Result<(), String>)
        requires
            old(self).wf(),
        ensures
            final(self).wf(),
            final(self).forwarding_rules() == old(self).forwarding_rules(),
            match r {
                Ok(()) => exists|i: int|
                    0 <= i < old(self).listening_rules().len() && listening_matches(
                        #[trigger] old(self).listening_rules()[i].1,
                        local_host@,
                        local_port,
                        None,
                    ) && (forall|j: int|
                        0 <= j < i ==> !listening_matches(
                            #[trigger] old(self).listening_rules()[j].1,
                            local_host@,
                            local_port,
                            None,
                        )) && final(self).listening_rules() == old(self).listening_rules().remove(i),
                Err(e) => (forall|j: int|
                    0 <= j < old(self).listening_rules().len() ==> !listening_matches(
                        #[trigger] old(self).listening_rules()[j].1,
                        local_host@,
                        local_port,
                        None,
                    )) && e@ == "Listening rule not found: "@ + local_host@ + ":"@ + decimal(local_port as nat)
                    && final(self).listening_rules() == old(self).listening_rules(),
            },
    {
        self.remove_tcp_listening_rule_with_protocol(local_host, local_port, None)
    }

    /// Adds the rules of a configuration, each with what parsing its local
    /// address gave: the forwarding rules when forwarding is enabled, the
    /// listening rules when listening is; a rule that is refused is skipped.
    pub fn init_from_config(
        &mut self,
        forwarding_enabled: bool,
        forwarding: &Vec<(TcpForwardingRule, Result<(), String>)>,
        listening_enabled: bool,
        listening: &Vec<(ListeningRule, Result<(), String>)>,
    )
        requires
            old(self).wf(),
        ensures
            final(self).wf(),
            final(self).forwarding_rules() == if forwarding_enabled {
                forwarding_after_adds(old(self).forwarding_rules(), forwarding@)
            } else {
                old(self).forwarding_rules()
            },
            final(self).listening_rules() == if listening_enabled {
                listening_after_adds(old(self).listening_rules(), listening@)
            } else {
                old(self).listening_rules()
            },
    {
        if forwarding_enabled {
            let ghost start = self.forwarding_rules();
            let mut i: usize = 0;
            while i < forwarding.len()
                invariant
                    i <= forwarding.len(),
                    self.wf(),
                    self.listening_rules() == old(self).listening_rules(),
                    start == old(self).forwarding_rules(),
                    self.forwarding_rules() == forwarding_after_adds(start, forwarding@.take(i as int)),
                decreases forwarding.len() - i,
            {
                let rule = copy_forwarding_rule(&forwarding[i].0);
                let check = copy_check(&forwarding[i].1);
                proof {
                    assert(forwarding@.take(i + 1).drop_last() =~= forwarding@.take(i as int));
                }
                let _ = self.add_forwarding_rule(rule, check);
                i = i + 1;
            }
            proof {
                assert(forwarding@.take(i as int) =~= forwarding@);
            }
        }
        if listening_enabled {
            let ghost start = self.listening_rules();
            let mut i: usize = 0;
            while i < listening.len()
                invariant
                    i <= listening.len(),
                    self.wf(),
                    self.forwarding_rules() == if forwarding_enabled {
                        forwarding_after_adds(old(self).forwarding_rules(), forwarding@)
                    } else {
                        old(self).forwarding_rules()
                    },
                    start == old(self).listening_rules(),
                    self.listening_rules() == listening_after_adds(start, listening@.take(i as int)),
                decreases listening.len() - i,
            {
                let rule = copy_listening_rule(&listening[i].0);
                let check = copy_check(&listening[i].1);
                proof {
                    assert(listening@.take(i + 1).drop_last() =~= listening@.take(i as int));
                }
                let _ = self.add_listening_rule(rule, check);
                i = i + 1;
            }
            proof {
                assert(listening@.take(i as int) =~= listening@);
            }
        }
    }
}

/// Removing a rule by the id that adding it returned gives back the rules
/// there were before it was added: the id is found, at one place only.
pub proof fn law_remove_undoes_add<T>(s: Seq<(Seq<char>, T)>, id: Seq<char>, rule: T)
    requires
        ids_distinct(s),
        !has_id(s, id),
    ensures
        has_id(s.push((id, rule)), id),
        ids_distinct(s.push((id, rule))),
        forall|i: int|
            0 <= i < s.len() + 1 && (#[trigger] s.push((id, rule))[i]).0 == id ==> s.push((id, rule)).remove(i) == s,
{
    let t = s.push((id, rule));
    assert(t[s.len() as int].0 == id);
    assert forall|i: int, j: int| 0 <= i < j < t.len() implies (#[trigger] t[i]).0 != (#[trigger] t[j]).0 by {
        if j == s.len() {
            assert(s[i] == t[i]);
        } else {
            assert(s[i] == t[i] && s[j] == t[j]);
        }
    }
    assert forall|i: int| 0 <= i < s.len() + 1 && (#[trigger] t[i]).0 == id implies t.remove(i) == s by {
        if i < s.len() {
            assert(s[i] == t[i]);
        }
        assert(t.remove(i) =~= s);
    }
}

} // verus!

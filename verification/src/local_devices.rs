//! The devices a node finds on its local network by mDNS, and what it
//! announces of itself there.

use vstd::prelude::*;

use crate::model::{copy_strings, opt_text, texts};
use crate::ordered::{
    entry_views, lemma_sorted_insert_sorted, ordered_insert, seq_lt, sorted_insert, strictly_sorted,
};
use crate::text::str_eq;

verus! {

/// A device as it announces itself on the local network.
#[derive(Debug, Clone)]
pub struct LocalDevice {
    pub peer_id: String,
    pub hostname: Option<String>,
    pub os: String,
    pub version: String,
    pub private_ips: Vec<String>,
}

pub struct LocalDeviceView {
    pub peer_id: Seq<char>,
    pub hostname: Option<Seq<char>>,
    pub os: Seq<char>,
    pub version: Seq<char>,
    pub private_ips: Seq<Seq<char>>,
}

impl View for LocalDevice {
    type V = LocalDeviceView;

    open spec fn view(&self) -> LocalDeviceView {
        LocalDeviceView {
            peer_id: self.peer_id@,
            hostname: opt_text(self.hostname),
            os: self.os@,
            version: self.version@,
            private_ips: texts(self.private_ips@),
        }
    }
}

impl LocalDevice {
    /// A copy of the device.
    pub fn duplicate(&self) -> (r: Self)
        ensures
            r@ == self@,
    {
        LocalDevice {
            peer_id: self.peer_id.clone(),
            hostname: match &self.hostname {
                Some(h) => Some(h.clone()),
                None => None,
            },
            os: self.os.clone(),
            version: self.version.clone(),
            private_ips: copy_strings(&self.private_ips),
        }
    }
}

/// The TXT properties a device announces: its peer id, operating system
/// and version, and its host name when it has one.
pub open spec fn announced_properties_of(d: LocalDeviceView) -> Seq<(Seq<char>, Seq<char>)> {
    let base = seq![("peer_id"@, d.peer_id), ("os"@, d.os), ("version"@, d.version)];
    match d.hostname {
        Some(h) => base.push(("hostname"@, h)),
        None => base,
    }
}

/// The TXT properties this node announces; see `announced_properties_of`.
pub fn announced_properties(device: &LocalDevice) -> (r: Vec<(String, String)>)
    ensures
        r@.map_values(|p: (String, String)| (p.0@, p.1@)) == announced_properties_of(device@),
{
    let mut r: Vec<(String, String)> = Vec::new();
    r.push(("peer_id".to_owned(), device.peer_id.clone()));
    r.push(("os".to_owned(), device.os.clone()));
    r.push(("version".to_owned(), device.version.clone()));
    if let Some(h) = &device.hostname {
        r.push(("hostname".to_owned(), h.clone()));
    }
    proof {
        assert(r@.map_values(|p: (String, String)| (p.0@, p.1@)) =~= announced_properties_of(device@));
    }
    r
}

/// The instance name of a full mDNS service name: the text before its
/// first `.`, or all of it.
pub open spec fn instance_name(fullname: Seq<char>) -> Seq<char>
    decreases fullname.len(),
{
    if fullname.len() == 0 || fullname[0] == '.' {
        Seq::empty()
    } else {
        seq![fullname[0]] + instance_name(fullname.drop_first())
    }
}

/// The instance name of a full mDNS service name; see `instance_name`.
pub fn instance_name_of(fullname: &str) -> (r: String)
    ensures
        r@ == instance_name(fullname@),
{
    let cs = crate::text::chars_of(fullname);
    let mut i: usize = 0;
    proof {
        assert(cs@.skip(0) =~= cs@);
        assert(cs@.take(0) + instance_name(cs@) =~= instance_name(cs@));
    }
    while i < cs.len() && cs[i] != '.'
        invariant
            i <= cs.len(),
            cs@ == fullname@,
            forall|j: int| 0 <= j < i ==> cs@[j] != '.',
            instance_name(fullname@) == cs@.take(i as int) + instance_name(cs@.skip(i as int)),
        decreases cs.len() - i,
    {
        proof {
            let rest = cs@.skip(i as int);
            assert(rest[0] == cs@[i as int]);
            assert(rest.drop_first() =~= cs@.skip(i + 1));
            assert(cs@.take(i + 1) =~= cs@.take(i as int) + seq![cs@[i as int]]);
            assert(cs@.take(i as int) + instance_name(rest) =~= cs@.take(i + 1) + instance_name(cs@.skip(i + 1)));
        }
        i = i + 1;
    }
    proof {
        let rest = cs@.skip(i as int);
        if i < cs.len() {
            assert(rest[0] == '.');
        }
        assert(instance_name(rest) =~= Seq::<char>::empty());
        assert(cs@.take(i as int) + Seq::<char>::empty() =~= cs@.take(i as int));
    }
    let out = crate::text::slice_chars(&cs, 0, i);
    proof {
        assert(cs@.subrange(0, i as int) =~= cs@.take(i as int));
    }
    crate::text::string_from(out.as_slice())
}

/// What the mDNS browser reports.
#[derive(Debug, Clone)]
pub enum MdnsEvent {
    /// A device's announcement was resolved.
    Resolved(LocalDevice),
    /// The service with this full name went away.
    Removed(String),
    /// Anything else.
    Other,
}

/// Entries without the one filed under `k`.
pub open spec fn without_key(s: Seq<(Seq<char>, LocalDeviceView)>, k: Seq<char>) -> Seq<(Seq<char>, LocalDeviceView)>
    decreases s.len(),
{
    if s.len() == 0 {
        s
    } else {
        let rest = without_key(s.drop_last(), k);
        if s.last().0 == k {
            rest
        } else {
            rest.push(s.last())
        }
    }
}

/// Entries without those filed under an expired peer id.
pub open spec fn unexpired(s: Seq<(Seq<char>, LocalDeviceView)>, expired: Seq<Seq<char>>) -> Seq<
    (Seq<char>, LocalDeviceView),
>
    decreases s.len(),
{
    if s.len() == 0 {
        s
    } else {
        let rest = unexpired(s.drop_last(), expired);
        if expired.contains(s.last().0) {
            rest
        } else {
            rest.push(s.last())
        }
    }
}

/// The device filed under `k`: the first entry with that key.
pub open spec fn device_of(s: Seq<(Seq<char>, LocalDeviceView)>, k: Seq<char>) -> Option<LocalDeviceView>
    decreases s.len(),
{
    if s.len() == 0 {
        None
    } else if s[0].0 == k {
        Some(s[0].1)
    } else {
        device_of(s.drop_first(), k)
    }
}

/// The device entries after an event, seen from the node `own_peer_id`: a
/// resolved device of another node is filed under its peer id, replacing
/// what was there; a removed service's instance name is taken as the peer
/// id whose device is dropped; other events change nothing.
pub open spec fn after_event(
    s: Seq<(Seq<char>, LocalDeviceView)>,
    own_peer_id: Seq<char>,
    event: MdnsEvent,
) -> Seq<(Seq<char>, LocalDeviceView)> {
    match event {
        MdnsEvent::Resolved(d) => if d.peer_id@ == own_peer_id {
            s
        } else {
            sorted_insert(s, d.peer_id@, d@)
        },
        MdnsEvent::Removed(fullname) => without_key(s, instance_name(fullname@)),
        MdnsEvent::Other => s,
    }
}

/// The devices found on the local network, by peer id in id order.
pub struct LocalDevices {
    devices: Vec<(String, LocalDevice)>,
}

impl LocalDevices {
    /// The device entries, in order.
    pub closed spec fn entries(&self) -> Seq<(Seq<char>, LocalDeviceView)> {
        entry_views(self.devices@)
    }

    /// No devices.
    pub fn new() -> (r: Self)
        ensures
            r.entries() == Seq::<(Seq<char>, LocalDeviceView)>::empty(),
    {
        let r = LocalDevices { devices: Vec::new() };
        proof {
            assert(r.entries() =~= Seq::<(Seq<char>, LocalDeviceView)>::empty());
        }
        r
    }

    /// Takes in what the mDNS browser reported; see `after_event`.
    pub fn apply_event(&mut self, own_peer_id: &str, event: MdnsEvent)
        ensures
            final(self).entries() == after_event(old(self).entries(), own_peer_id@, event),
    {
        match event {
            MdnsEvent::Resolved(d) => {
                if !str_eq(d.peer_id.as_str(), own_peer_id) {
                    let key = d.peer_id.clone();
                    ordered_insert(&mut self.devices, key, d);
                }
            },
            MdnsEvent::Removed(fullname) => {
                let name = instance_name_of(fullname.as_str());
                self.forget(name.as_str());
            },
            MdnsEvent::Other => {},
        }
    }

    /// Drops the device filed under `peer_id`, if any.
    pub fn forget(&mut self, peer_id: &str)
        ensures
            final(self).entries() == without_key(old(self).entries(), peer_id@),
    {
        let ghost s = self.entries();
        let mut kept: Vec<(String, LocalDevice)> = Vec::new();
        let mut i: usize = 0;
        proof {
            assert(s.take(0) =~= Seq::<(Seq<char>, LocalDeviceView)>::empty());
            assert(entry_views(kept@) =~= Seq::<(Seq<char>, LocalDeviceView)>::empty());
        }
        while i < self.devices.len()
            invariant
                i <= self.devices.len(),
                s == entry_views(self.devices@),
                entry_views(kept@) == without_key(s.take(i as int), peer_id@),
            decreases self.devices.len() - i,
        {
            proof {
                assert(s.take(i + 1).drop_last() =~= s.take(i as int));
                assert(s.take(i + 1).last() == s[i as int]);
                assert(s[i as int] == (self.devices@[i as int].0@, self.devices@[i as int].1@));
            }
            if !str_eq(self.devices[i].0.as_str(), peer_id) {
                let ghost before = entry_views(kept@);
                kept.push((self.devices[i].0.clone(), self.devices[i].1.duplicate()));
                proof {
                    assert(entry_views(kept@) =~= before.push(s[i as int]));
                }
            }
            i = i + 1;
        }
        proof {
            assert(s.take(s.len() as int) =~= s);
        }
        self.devices = kept;
    }

    /// Drops all devices, as stopping discovery does.
    pub fn clear(&mut self)
        ensures
            final(self).entries() == Seq::<(Seq<char>, LocalDeviceView)>::empty(),
    {
        self.devices = Vec::new();
        proof {
            assert(self.entries() =~= Seq::<(Seq<char>, LocalDeviceView)>::empty());
        }
    }

    /// Drops the devices whose announcements expired; `expired_peers` are
    /// the peer ids of the devices that expired.
    pub fn cleanup_expired_devices(&mut self, expired_peers: &Vec<String>)
        ensures
            final(self).entries() == unexpired(old(self).entries(), texts(expired_peers@)),
    {
        let ghost s = self.entries();
        let ghost ex = texts(expired_peers@);
        let mut kept: Vec<(String, LocalDevice)> = Vec::new();
        let mut i: usize = 0;
        proof {
            assert(s.take(0) =~= Seq::<(Seq<char>, LocalDeviceView)>::empty());
            assert(entry_views(kept@) =~= Seq::<(Seq<char>, LocalDeviceView)>::empty());
        }
        while i < self.devices.len()
            invariant
                i <= self.devices.len(),
                s == entry_views(self.devices@),
                ex == texts(expired_peers@),
                entry_views(kept@) == unexpired(s.take(i as int), ex),
            decreases self.devices.len() - i,
        {
            proof {
                assert(s.take(i + 1).drop_last() =~= s.take(i as int));
                assert(s.take(i + 1).last() == s[i as int]);
                assert(s[i as int] == (self.devices@[i as int].0@, self.devices@[i as int].1@));
            }
            let mut found = false;
            let mut j: usize = 0;
            while j < expired_peers.len()
                invariant
                    j <= expired_peers.len(),
                    ex == texts(expired_peers@),
                    i < self.devices.len(),
                    found <==> exists|q: int| 0 <= q < j && ex[q] == self.devices@[i as int].0@,
                decreases expired_peers.len() - j,
            {
                if str_eq(expired_peers[j].as_str(), self.devices[i].0.as_str()) {
                    proof {
                        assert(ex[j as int] == expired_peers@[j as int]@);
                    }
                    found = true;
                } else {
                    proof {
                        assert(ex[j as int] == expired_peers@[j as int]@);
                        assert forall|q: int| 0 <= q < j + 1 && ex[q] == self.devices@[i as int].0@ implies q < j by {}
                    }
                }
                j = j + 1;
            }
            proof {
                if found {
                    let q = choose|q: int| 0 <= q < j && ex[q] == self.devices@[i as int].0@;
                    assert(ex.contains(s[i as int].0));
                } else {
                    assert(!ex.contains(s[i as int].0));
                }
            }
            if !found {
                let ghost before = entry_views(kept@);
                kept.push((self.devices[i].0.clone(), self.devices[i].1.duplicate()));
                proof {
                    assert(entry_views(kept@) =~= before.push(s[i as int]));
                }
            }
            i = i + 1;
        }
        proof {
            assert(s.take(s.len() as int) =~= s);
        }
        self.devices = kept;
    }

    /// All devices that have not expired, in peer id order; the expired
    /// ones are dropped first (see `cleanup_expired_devices`).
    pub fn get_all_devices(&mut self, expired_peers: &Vec<String>) -> (r: Vec<LocalDevice>)
        ensures
            final(self).entries() == unexpired(old(self).entries(), texts(expired_peers@)),
            r@.map_values(|d: LocalDevice| d@) == final(self).entries().map_values(
                |e: (Seq<char>, LocalDeviceView)| e.1,
            ),
    {
        self.cleanup_expired_devices(expired_peers);
        let mut r: Vec<LocalDevice> = Vec::new();
        let mut i: usize = 0;
        while i < self.devices.len()
            invariant
                i <= self.devices.len(),
                r@.len() == i,
                forall|j: int| 0 <= j < i ==> (#[trigger] r@[j])@ == self.devices@[j].1@,
            decreases self.devices.len() - i,
        {
            r.push(self.devices[i].1.duplicate());
            i = i + 1;
        }
        proof {
            assert(r@.map_values(|d: LocalDevice| d@) =~= self.entries().map_values(
                |e: (Seq<char>, LocalDeviceView)| e.1,
            ));
        }
        r
    }

    /// The device filed under `peer_id`, unless it expired (see
    /// `device_of`); the expired devices are dropped first.
    pub fn get_device(&mut self, peer_id: &str, expired_peers: &Vec<String>) -> (r: Option<LocalDevice>)
        ensures
            final(self).entries() == unexpired(old(self).entries(), texts(expired_peers@)),
            match r {
                Some(d) => device_of(final(self).entries(), peer_id@) == Some(d@),
                None => device_of(final(self).entries(), peer_id@) is None,
            },
    {
        self.cleanup_expired_devices(expired_peers);
        let ghost s = self.entries();
        let mut i: usize = 0;
        proof {
            assert(s.skip(0) =~= s);
        }
        while i < self.devices.len()
            invariant
                i <= self.devices.len(),
                s == entry_views(self.devices@),
                s == unexpired(old(self).entries(), texts(expired_peers@)),
                device_of(s, peer_id@) == device_of(s.skip(i as int), peer_id@),
            decreases self.devices.len() - i,
        {
            proof {
                assert(s.skip(i as int)[0] == s[i as int]);
                assert(s[i as int] == (self.devices@[i as int].0@, self.devices@[i as int].1@));
                assert(s.skip(i as int).drop_first() =~= s.skip(i + 1));
            }
            if str_eq(self.devices[i].0.as_str(), peer_id) {
                return Some(self.devices[i].1.duplicate());
            }
            i = i + 1;
        }
        None
    }

    /// How many devices are known that have not expired; the expired
    /// devices are dropped first.
    pub fn get_device_count(&mut self, expired_peers: &Vec<String>) -> (r: usize)
        ensures
            final(self).entries() == unexpired(old(self).entries(), texts(expired_peers@)),
            r == final(self).entries().len(),
    {
        self.cleanup_expired_devices(expired_peers);
        self.devices.len()
    }
}

proof fn lemma_without_key_from(s: Seq<(Seq<char>, LocalDeviceView)>, k: Seq<char>)
    ensures
        forall|j: int|
            0 <= j < without_key(s, k).len() ==> (#[trigger] without_key(s, k)[j]).0 != k && exists|m: int|
                0 <= m < s.len() && s[m] == without_key(s, k)[j],
        strictly_sorted(s) ==> strictly_sorted(without_key(s, k)),
    decreases s.len(),
{
    if s.len() > 0 {
        let dl = s.drop_last();
        lemma_without_key_from(dl, k);
        let r = without_key(dl, k);
        let w = without_key(s, k);
        assert forall|j: int| 0 <= j < w.len() implies (#[trigger] w[j]).0 != k && exists|m: int|
            0 <= m < s.len() && s[m] == w[j] by {
            if j < r.len() {
                assert(w[j] == r[j]);
                let m = choose|m: int| 0 <= m < dl.len() && dl[m] == r[j];
                assert(s[m] == dl[m]);
            } else {
                assert(w[j] == s.last());
                assert(s[s.len() - 1] == s.last());
            }
        }
        if strictly_sorted(s) {
            assert forall|i: int, j: int| 0 <= i < j < dl.len() implies seq_lt(#[trigger] dl[i].0, #[trigger] dl[j].0) by {
                assert(dl[i] == s[i] && dl[j] == s[j]);
            }
            assert forall|i: int, j: int| 0 <= i < j < w.len() implies seq_lt(#[trigger] w[i].0, #[trigger] w[j].0) by {
                if j < r.len() {
                    assert(w[i] == r[i] && w[j] == r[j]);
                } else {
                    assert(w[i] == r[i]);
                    let m = choose|m: int| 0 <= m < dl.len() && dl[m] == r[i];
                    assert(s[m] == dl[m]);
                    assert(w[j] == s[s.len() - 1]);
                }
            }
        }
    }
}

/// The device list holds each peer at most once, in peer id order, after
/// any sequence of events: every event keeps that order.
pub proof fn law_device_entries_stay_ordered(
    s: Seq<(Seq<char>, LocalDeviceView)>,
    own_peer_id: Seq<char>,
    event: MdnsEvent,
)
    requires
        strictly_sorted(s),
    ensures
        strictly_sorted(after_event(s, own_peer_id, event)),
{
    match event {
        MdnsEvent::Resolved(d) => {
            lemma_sorted_insert_sorted(s, d.peer_id@, d@);
        },
        MdnsEvent::Removed(fullname) => {
            lemma_without_key_from(s, instance_name(fullname@));
        },
        MdnsEvent::Other => {},
    }
}

/// This node never lists itself, and a device whose service went away is
/// no longer listed.
pub proof fn law_own_and_removed_devices_are_not_listed(
    s: Seq<(Seq<char>, LocalDeviceView)>,
    own_peer_id: Seq<char>,
    event: MdnsEvent,
)
    requires
        device_of(s, own_peer_id) is None,
    ensures
        device_of(after_event(s, own_peer_id, event), own_peer_id) is None,
        event matches MdnsEvent::Removed(fullname) ==> device_of(
            after_event(s, own_peer_id, event),
            instance_name(fullname@),
        ) is None,
{
    lemma_device_of_none(s, own_peer_id);
    match event {
        MdnsEvent::Resolved(d) => {
            if d.peer_id@ != own_peer_id {
                let t = sorted_insert(s, d.peer_id@, d@);
                lemma_sorted_insert_keys(s, d.peer_id@, d@);
                assert forall|j: int| 0 <= j < t.len() implies (#[trigger] t[j]).0 != own_peer_id by {
                    if t[j].0 != d.peer_id@ {
                        let m = choose|m: int| 0 <= m < s.len() && s[m].0 == t[j].0;
                    }
                }
                lemma_device_of_none(t, own_peer_id);
            }
        },
        MdnsEvent::Removed(fullname) => {
            let k = instance_name(fullname@);
            let t = without_key(s, k);
            lemma_without_key_from(s, k);
            assert forall|j: int| 0 <= j < t.len() implies (#[trigger] t[j]).0 != own_peer_id by {
                let m = choose|m: int| 0 <= m < s.len() && s[m] == t[j];
            }
            lemma_device_of_none(t, own_peer_id);
            lemma_device_of_none(t, k);
        },
        MdnsEvent::Other => {},
    }
}

proof fn lemma_unexpired_from(s: Seq<(Seq<char>, LocalDeviceView)>, ex: Seq<Seq<char>>)
    ensures
        forall|j: int|
            0 <= j < unexpired(s, ex).len() ==> !ex.contains((#[trigger] unexpired(s, ex)[j]).0) && exists|m: int|
                0 <= m < s.len() && s[m] == unexpired(s, ex)[j],
        strictly_sorted(s) ==> strictly_sorted(unexpired(s, ex)),
    decreases s.len(),
{
    if s.len() > 0 {
        let dl = s.drop_last();
        lemma_unexpired_from(dl, ex);
        let r = unexpired(dl, ex);
        let w = unexpired(s, ex);
        assert forall|j: int| 0 <= j < w.len() implies !ex.contains((#[trigger] w[j]).0) && exists|m: int|
            0 <= m < s.len() && s[m] == w[j] by {
            if j < r.len() {
                assert(w[j] == r[j]);
                let m = choose|m: int| 0 <= m < dl.len() && dl[m] == r[j];
                assert(s[m] == dl[m]);
            } else {
                assert(w[j] == s.last());
                assert(s[s.len() - 1] == s.last());
            }
        }
        if strictly_sorted(s) {
            assert forall|i: int, j: int| 0 <= i < j < dl.len() implies seq_lt(#[trigger] dl[i].0, #[trigger] dl[j].0) by {
                assert(dl[i] == s[i] && dl[j] == s[j]);
            }
            assert forall|i: int, j: int| 0 <= i < j < w.len() implies seq_lt(#[trigger] w[i].0, #[trigger] w[j].0) by {
                if j < r.len() {
                    assert(w[i] == r[i] && w[j] == r[j]);
                } else {
                    assert(w[i] == r[i]);
                    let m = choose|m: int| 0 <= m < dl.len() && dl[m] == r[i];
                    assert(s[m] == dl[m]);
                    assert(w[j] == s[s.len() - 1]);
                }
            }
        }
    }
}

/// Dropping the expired devices keeps the list in peer id order, and no
/// expired device is listed afterwards.
pub proof fn law_expired_devices_are_not_listed(s: Seq<(Seq<char>, LocalDeviceView)>, expired: Seq<Seq<char>>)
    requires
        strictly_sorted(s),
    ensures
        strictly_sorted(unexpired(s, expired)),
        forall|k: Seq<char>| #[trigger] expired.contains(k) ==> device_of(unexpired(s, expired), k) is None,
{
    lemma_unexpired_from(s, expired);
    let t = unexpired(s, expired);
    assert forall|k: Seq<char>| #[trigger] expired.contains(k) implies device_of(t, k) is None by {
        lemma_device_of_none(t, k);
        assert forall|j: int| 0 <= j < t.len() implies (#[trigger] t[j]).0 != k by {
            assert(!expired.contains(t[j].0));
        }
    }
}

proof fn lemma_device_of_none(s: Seq<(Seq<char>, LocalDeviceView)>, k: Seq<char>)
    ensures
        device_of(s, k) is None <==> forall|j: int| 0 <= j < s.len() ==> (#[trigger] s[j]).0 != k,
    decreases s.len(),
{
    if s.len() > 0 {
        lemma_device_of_none(s.drop_first(), k);
        if s[0].0 != k {
            assert forall|j: int| 0 < j < s.len() implies s[j] == s.drop_first()[j - 1] by {}
            if device_of(s.drop_first(), k) is Some {
                let j = choose|j: int| 0 <= j < s.drop_first().len() && (#[trigger] s.drop_first()[j]).0 == k;
                assert(s[j + 1].0 == k);
            }
        }
    }
}

proof fn lemma_sorted_insert_keys(s: Seq<(Seq<char>, LocalDeviceView)>, k: Seq<char>, v: LocalDeviceView)
    ensures
        forall|j: int|
            0 <= j < sorted_insert(s, k, v).len() ==> (#[trigger] sorted_insert(s, k, v)[j]).0 == k || exists|m: int|
                0 <= m < s.len() && s[m].0 == sorted_insert(s, k, v)[j].0,
    decreases s.len(),
{
    let r = sorted_insert(s, k, v);
    if s.len() > 0 && s[0].0 != k && !seq_lt(k, s[0].0) {
        let t = s.drop_first();
        lemma_sorted_insert_keys(t, k, v);
        assert forall|j: int| 0 <= j < r.len() implies (#[trigger] r[j]).0 == k || exists|m: int|
            0 <= m < s.len() && s[m].0 == r[j].0 by {
            if j == 0 {
                assert(s[0].0 == r[0].0);
            } else {
                let u = sorted_insert(t, k, v);
                assert(r[j] == u[j - 1]);
                if u[j - 1].0 != k {
                    let m = choose|m: int| 0 <= m < t.len() && t[m].0 == u[j - 1].0;
                    assert(s[m + 1] == t[m]);
                }
            }
        }
    } else if s.len() > 0 && s[0].0 == k {
        assert forall|j: int| 0 <= j < r.len() implies (#[trigger] r[j]).0 == k || exists|m: int|
            0 <= m < s.len() && s[m].0 == r[j].0 by {
            if j > 0 {
                assert(r[j] == s[j]);
            }
        }
    } else if s.len() > 0 {
        assert forall|j: int| 0 <= j < r.len() implies (#[trigger] r[j]).0 == k || exists|m: int|
            0 <= m < s.len() && s[m].0 == r[j].0 by {
            if j > 0 {
                assert(r[j] == s[j - 1]);
            }
        }
    }
}

} // verus!

//! Local-network discovery: announcements, the table of peers seen
//! recently, and the names under which the device is advertised over mDNS.
//!
//! The multicast socket loop and the mDNS daemon run in the application; it
//! decodes each received announcement and hands it to `PeerTable::track`.

use vstd::prelude::*;

use crate::config::{DISCOVERY_MULTICAST_GROUP, DISCOVERY_MULTICAST_PORT, MDNS_SERVICE_TYPE, PROTOCOL_VERSION};
use crate::text::{ascii_alphanumeric, chars_of, string_from_chars, trim, trim_chars};

verus! {

/// An advertised peer (the payload of a discovery packet).
#[derive(Debug, Clone)]
pub struct PeerAd {
    pub protocol_version: String,
    pub device_name: String,
    pub peer_id: String,
    /// QUIC UDP port the peer is accepting transfers on.
    pub port: u16,
    /// One-hop LAN addresses (may be empty on some radios).
    pub addresses: Vec<String>,
}

impl PeerAd {
    /// The announcement of a device named `device_name` with id `peer_id`
    /// accepting transfers on `port`, speaking this protocol version and
    /// listing no address.
    pub fn announce(device_name: &str, peer_id: &str, port: u16) -> (r: Self)
        ensures
            r.protocol_version@ == PROTOCOL_VERSION@,
            r.device_name@ == device_name@,
            r.peer_id@ == peer_id@,
            r.port == port,
            r.addresses@.len() == 0,
    {
        PeerAd {
            protocol_version: PROTOCOL_VERSION.to_owned(),
            device_name: device_name.to_owned(),
            peer_id: peer_id.to_owned(),
            port,
            addresses: Vec::new(),
        }
    }
}

/// Settings of the discovery loop.
#[derive(Debug, Clone)]
pub struct DiscoveryConfig {
    /// Multicast group address.
    pub group: String,
    /// Multicast port.
    pub port: u16,
    /// How often we broadcast our announcement, in milliseconds.
    pub announce_interval_ms: u64,
    /// After this many milliseconds without a packet a peer is considered gone.
    pub forget_after_ms: u64,
}

impl Default for DiscoveryConfig {
    fn default() -> (r: Self)
        ensures
            r.group@ == DISCOVERY_MULTICAST_GROUP@,
            r.port == DISCOVERY_MULTICAST_PORT,
            r.announce_interval_ms == 2000,
            r.forget_after_ms == 30000,
    {
        DiscoveryConfig {
            group: DISCOVERY_MULTICAST_GROUP.to_owned(),
            port: DISCOVERY_MULTICAST_PORT,
            announce_interval_ms: 2000,
            forget_after_ms: 30000,
        }
    }
}

// ---------------------------------------------------------------------------
// Host names for mDNS
// ---------------------------------------------------------------------------

/// The character a host name keeps in place of `c`.
pub open spec fn host_char(c: char) -> char {
    if ascii_alphanumeric(c) || c == '-' {
        c
    } else {
        '-'
    }
}

/// The host label derived from a device name.
pub open spec fn sanitized_host(name: Seq<char>) -> Seq<char> {
    if name.len() == 0 {
        "morselink"@
    } else {
        name.map_values(|c: char| host_char(c))
    }
}

/// A DNS-safe host label for a device name: ASCII letters, digits and `-`,
/// anything else replaced by `-`; `morselink` for an empty name.
pub fn sanitize_host(name: &str) -> (r: String)
    ensures
        r@ == sanitized_host(name@),
{
    let src = chars_of(name);
    if src.len() == 0 {
        return "morselink".to_owned();
    }
    let mut out = String::new();
    let mut i: usize = 0;
    while i < src.len()
        invariant
            i <= src.len(),
            src@ == name@,
            out@ == src@.take(i as int).map_values(|c: char| host_char(c)),
        decreases src.len() - i,
    {
        let c = src[i];
        let keep = ('a' <= c && c <= 'z') || ('A' <= c && c <= 'Z') || ('0' <= c && c <= '9') || c
            == '-';
        let h = if keep {
            c
        } else {
            '-'
        };
        out.push(h);
        i = i + 1;
        assert(src@.take(i as int).map_values(|c: char| host_char(c)) =~= src@.take(
            (i - 1) as int,
        ).map_values(|c: char| host_char(c)).push(h));
    }
    assert(src@.take(src.len() as int) =~= src@);
    out
}

/// What the device registers with the mDNS daemon.
#[derive(Debug, Clone)]
pub struct MdnsRegistration {
    pub service_type: String,
    pub instance_name: String,
    pub host_name: String,
    pub port: u16,
    pub properties: Vec<(String, String)>,
}

/// The mDNS registration of a device named `device_name` accepting transfers
/// on `port`: host `<sanitised name>.local`, instance `<trimmed name>.<service
/// type>`, properties `peer_id` (the device name) and `proto`.
pub fn mdns_registration(device_name: &str, port: u16) -> (r: MdnsRegistration)
    ensures
        r.service_type@ == MDNS_SERVICE_TYPE@,
        r.instance_name@ == trim(device_name@) + "."@ + MDNS_SERVICE_TYPE@,
        r.host_name@ == sanitized_host(device_name@) + ".local"@,
        r.port == port,
        r.properties@.len() == 2,
        r.properties@[0].0@ == "peer_id"@,
        r.properties@[0].1@ == device_name@,
        r.properties@[1].0@ == "proto"@,
        r.properties@[1].1@ == "morselink/1.0"@,
{
    let mut host = sanitize_host(device_name);
    host.append(".local");
    let trimmed = trim_chars(&chars_of(device_name));
    let mut instance = string_from_chars(&trimmed);
    instance.append(".");
    instance.append(MDNS_SERVICE_TYPE);
    let mut properties: Vec<(String, String)> = Vec::new();
    properties.push(("peer_id".to_owned(), device_name.to_owned()));
    properties.push(("proto".to_owned(), "morselink/1.0".to_owned()));
    MdnsRegistration {
        service_type: MDNS_SERVICE_TYPE.to_owned(),
        instance_name: instance,
        host_name: host,
        port,
        properties,
    }
}


// ---------------------------------------------------------------------------
// Peers seen recently
// ---------------------------------------------------------------------------

/// A peer that has been seen on the network. `last_seen` is a timestamp in
/// milliseconds on the application's monotonic clock.
#[derive(Debug, Clone)]
pub struct DiscoveredPeer {
    pub peer_id: String,
    pub device_name: String,
    /// The address its last announcement came from.
    pub addr: String,
    pub last_seen: u64,
}

/// What a `DiscoveredPeer` holds, as plain values.
pub struct PeerView {
    pub peer_id: Seq<char>,
    pub device_name: Seq<char>,
    pub addr: Seq<char>,
    pub last_seen: u64,
}

impl View for DiscoveredPeer {
    type V = PeerView;

    open spec fn view(&self) -> PeerView {
        PeerView {
            peer_id: self.peer_id@,
            device_name: self.device_name@,
            addr: self.addr@,
            last_seen: self.last_seen,
        }
    }
}

impl DiscoveredPeer {
    /// A copy of this entry.
    pub fn duplicate(&self) -> (r: Self)
        ensures
            r@ == self@,
    {
        DiscoveredPeer {
            peer_id: self.peer_id.clone(),
            device_name: self.device_name.clone(),
            addr: self.addr.clone(),
            last_seen: self.last_seen,
        }
    }
}

pub open spec fn peers_view(peers: Seq<DiscoveredPeer>) -> Seq<PeerView> {
    peers.map_values(|p: DiscoveredPeer| p@)
}

/// No two entries share a peer id.
pub open spec fn unique_ids(peers: Seq<PeerView>) -> bool {
    forall|i: int, j: int|
        0 <= i < j < peers.len() ==> #[trigger] peers[i].peer_id != #[trigger] peers[j].peer_id
}

/// The table after an announcement from `peer_id` / `device_name` arrived
/// from `from` at time `now`: a known peer gets its address and time
/// refreshed (its name is kept), an unknown one is appended.
pub open spec fn after_announcement(
    peers: Seq<PeerView>,
    peer_id: Seq<char>,
    device_name: Seq<char>,
    from: Seq<char>,
    now: u64,
) -> Seq<PeerView> {
    if exists|i: int| 0 <= i < peers.len() && #[trigger] peers[i].peer_id == peer_id {
        let i = choose|i: int| 0 <= i < peers.len() && #[trigger] peers[i].peer_id == peer_id;
        peers.update(i, PeerView { addr: from, last_seen: now, ..peers[i] })
    } else {
        peers.push(PeerView { peer_id, device_name, addr: from, last_seen: now })
    }
}

/// Whether a peer last seen at `last_seen` is still live at `now`.
pub open spec fn is_live(last_seen: u64, now: u64, forget_after: u64) -> bool {
    (if now >= last_seen {
        now - last_seen
    } else {
        0
    }) < forget_after
}

/// The entries of `peers` still live at `now`, in table order.
pub open spec fn live_subseq(peers: Seq<PeerView>, now: u64, forget_after: u64) -> Seq<PeerView>
    decreases peers.len(),
{
    if peers.len() == 0 {
        peers
    } else {
        let rest = live_subseq(peers.drop_last(), now, forget_after);
        if is_live(peers.last().last_seen, now, forget_after) {
            rest.push(peers.last())
        } else {
            rest
        }
    }
}

/// Lexicographic order on character sequences (by code point; the order of
/// `String::cmp`, since UTF-8 preserves it).
pub open spec fn lex_le(a: Seq<char>, b: Seq<char>) -> bool
    decreases a.len(),
{
    if a.len() == 0 {
        true
    } else if b.len() == 0 {
        false
    } else if a[0] != b[0] {
        a[0] < b[0]
    } else {
        lex_le(a.drop_first(), b.drop_first())
    }
}

/// Entries ordered by device name.
pub open spec fn sorted_by_name(peers: Seq<PeerView>) -> bool {
    forall|i: int, j: int|
        0 <= i < j < peers.len() ==> lex_le(#[trigger] peers[i].device_name, #[trigger] peers[j].device_name)
}

/// `s` with `x` inserted after the leading entries whose names are not
/// above `x`'s: one step of a stable sort by name.
pub open spec fn insert_by_name(s: Seq<PeerView>, x: PeerView) -> Seq<PeerView>
    decreases s.len(),
{
    if s.len() == 0 {
        seq![x]
    } else if lex_le(s[0].device_name, x.device_name) {
        seq![s[0]] + insert_by_name(s.drop_first(), x)
    } else {
        seq![x] + s
    }
}

/// `peers` stably sorted by device name: entries with equal names keep
/// their table order.
pub open spec fn sort_by_name(peers: Seq<PeerView>) -> Seq<PeerView>
    decreases peers.len(),
{
    if peers.len() == 0 {
        peers
    } else {
        insert_by_name(sort_by_name(peers.drop_last()), peers.last())
    }
}

proof fn lemma_insert_by_name_at(s: Seq<PeerView>, x: PeerView, p: int)
    requires
        0 <= p <= s.len(),
        forall|k: int| 0 <= k < p ==> lex_le(#[trigger] s[k].device_name, x.device_name),
        p < s.len() ==> !lex_le(s[p].device_name, x.device_name),
    ensures
        insert_by_name(s, x) == s.insert(p, x),
    decreases s.len(),
{
    if s.len() == 0 {
        assert(s.insert(p, x) =~= seq![x]);
    } else if p == 0 {
        assert(s.insert(p, x) =~= seq![x] + s);
    } else {
        let t = s.drop_first();
        assert forall|k: int| 0 <= k < p - 1 implies lex_le(#[trigger] t[k].device_name, x.device_name) by {
            assert(t[k] == s[k + 1]);
        }
        lemma_insert_by_name_at(t, x, p - 1);
        assert(s.insert(p, x) =~= seq![s[0]] + t.insert(p - 1, x));
    }
}

pub proof fn lemma_lex_total(a: Seq<char>, b: Seq<char>)
    ensures
        lex_le(a, b) || lex_le(b, a),
    decreases a.len(),
{
    if a.len() > 0 && b.len() > 0 && a[0] == b[0] {
        lemma_lex_total(a.drop_first(), b.drop_first());
    }
}

/// The name order is antisymmetric: two names each ordered before the other
/// are the same name.
pub proof fn lemma_lex_antisymmetric(a: Seq<char>, b: Seq<char>)
    requires
        lex_le(a, b),
        lex_le(b, a),
    ensures
        a == b,
    decreases a.len(),
{
    if a.len() > 0 && b.len() > 0 {
        lemma_lex_antisymmetric(a.drop_first(), b.drop_first());
        assert(a =~= seq![a[0]] + a.drop_first());
        assert(b =~= seq![b[0]] + b.drop_first());
    } else {
        assert(a =~= b);
    }
}

/// Where two names first differ, the one with the smaller character (code
/// point) comes first, and not the other way round.
pub proof fn lemma_lex_first_difference(a: Seq<char>, b: Seq<char>, k: int)
    requires
        0 <= k < a.len(),
        k < b.len(),
        a.take(k) == b.take(k),
        a[k] < b[k],
    ensures
        lex_le(a, b),
        !lex_le(b, a),
    decreases k,
{
    if k > 0 {
        assert(a[0] == a.take(k)[0] && b[0] == b.take(k)[0]);
        assert(a.drop_first().take(k - 1) =~= a.take(k).drop_first());
        assert(b.drop_first().take(k - 1) =~= b.take(k).drop_first());
        lemma_lex_first_difference(a.drop_first(), b.drop_first(), k - 1);
    }
}

/// A name is ordered before every longer name it is a prefix of, and not
/// after it.
pub proof fn lemma_lex_prefix(a: Seq<char>, b: Seq<char>)
    requires
        a.len() < b.len(),
        b.take(a.len() as int) == a,
    ensures
        lex_le(a, b),
        !lex_le(b, a),
    decreases a.len(),
{
    if a.len() > 0 {
        assert(a[0] == b.take(a.len() as int)[0]);
        assert(b.drop_first().take(a.len() - 1) =~= b.take(a.len() as int).drop_first());
        lemma_lex_prefix(a.drop_first(), b.drop_first());
    }
}

pub proof fn lemma_lex_trans(a: Seq<char>, b: Seq<char>, c: Seq<char>)
    requires
        lex_le(a, b),
        lex_le(b, c),
    ensures
        lex_le(a, c),
    decreases a.len(),
{
    if a.len() > 0 && b.len() > 0 && c.len() > 0 && a[0] == b[0] && b[0] == c[0] {
        lemma_lex_trans(a.drop_first(), b.drop_first(), c.drop_first());
    }
}

proof fn lemma_live_subseq_contains(peers: Seq<PeerView>, now: u64, forget_after: u64, x: PeerView)
    requires
        live_subseq(peers, now, forget_after).contains(x),
    ensures
        peers.contains(x),
        is_live(x.last_seen, now, forget_after),
    decreases peers.len(),
{
    if peers.len() > 0 {
        let rest = live_subseq(peers.drop_last(), now, forget_after);
        if rest.contains(x) {
            lemma_live_subseq_contains(peers.drop_last(), now, forget_after, x);
            let k = choose|k: int| 0 <= k < peers.drop_last().len() && peers.drop_last()[k] == x;
            assert(peers[k] == x);
        } else {
            assert(x == peers.last());
            assert(peers[peers.len() - 1] == x);
        }
    }
}

proof fn lemma_live_subseq_unique(peers: Seq<PeerView>, now: u64, forget_after: u64)
    requires
        unique_ids(peers),
    ensures
        unique_ids(live_subseq(peers, now, forget_after)),
    decreases peers.len(),
{
    if peers.len() > 0 {
        let init = peers.drop_last();
        assert(unique_ids(init));
        lemma_live_subseq_unique(init, now, forget_after);
        let rest = live_subseq(init, now, forget_after);
        if is_live(peers.last().last_seen, now, forget_after) {
            let r = rest.push(peers.last());
            assert forall|i: int, j: int| 0 <= i < j < r.len() implies #[trigger] r[i].peer_id
                != #[trigger] r[j].peer_id by {
                if j == r.len() - 1 {
                    assert(rest.contains(r[i]));
                    lemma_live_subseq_contains(init, now, forget_after, r[i]);
                    let k = choose|k: int| 0 <= k < init.len() && init[k] == r[i];
                    assert(peers[k] == init[k]);
                    assert(peers[k].peer_id != peers[peers.len() - 1].peer_id);
                }
            }
        }
    }
}

/// The peers seen recently, deduplicated by peer id.
pub struct PeerTable {
    peers: Vec<DiscoveredPeer>,
}

impl View for PeerTable {
    type V = Seq<PeerView>;

    closed spec fn view(&self) -> Seq<PeerView> {
        peers_view(self.peers@)
    }
}

impl PeerTable {
    #[verifier::type_invariant]
    closed spec fn wf(self) -> bool {
        unique_ids(peers_view(self.peers@))
    }

    /// An empty table.
    pub fn new() -> (r: Self)
        ensures
            r@ == Seq::<PeerView>::empty(),
            unique_ids(r@),
    {
        let r = PeerTable { peers: Vec::new() };
        assert(peers_view(r.peers@) =~= Seq::<PeerView>::empty());
        r
    }

    /// The number of peers in the table.
    pub fn len(&self) -> (r: usize)
        ensures
            r == self@.len(),
    {
        self.peers.len()
    }

    /// Record an announcement from `ad` received from address `from` at time
    /// `now`.
    pub fn track(&mut self, ad: &PeerAd, from: &str, now: u64)
        ensures
            final(self)@ == after_announcement(old(self)@, ad.peer_id@, ad.device_name@, from@, now),
            unique_ids(final(self)@),
    {
        proof {
            use_type_invariant(&*self);
        }
        let ghost old_view = self@;
        let mut i: usize = 0;
        while i < self.peers.len()
            invariant
                i <= self.peers.len(),
                peers_view(self.peers@) == old_view,
                old_view == old(self)@,
                unique_ids(old_view),
                forall|k: int| 0 <= k < i ==> #[trigger] old_view[k].peer_id != ad.peer_id@,
            decreases self.peers.len() - i,
        {
            if self.peers[i].peer_id == ad.peer_id {
                let mut p = self.peers[i].duplicate();
                p.addr = from.to_owned();
                p.last_seen = now;
                let ghost pv = p@;
                let mut peers: Vec<DiscoveredPeer> = Vec::new();
                std::mem::swap(&mut peers, &mut self.peers);
                peers.set(i, p);
                proof {
                    assert(old_view[i as int].peer_id == ad.peer_id@);
                    let target = after_announcement(old_view, ad.peer_id@, ad.device_name@, from@, now);
                    let c = choose|c: int| 0 <= c < old_view.len() && #[trigger] old_view[c].peer_id == ad.peer_id@;
                    assert(c == i);
                    assert(peers_view(peers@) =~= target);
                    assert(unique_ids(peers_view(peers@)));
                }
                self.peers = peers;
                assert(old_view == old(self)@);
                assert(self@ == after_announcement(old(self)@, ad.peer_id@, ad.device_name@, from@, now));
                return;
            }
            i = i + 1;
        }
        let p = DiscoveredPeer {
            peer_id: ad.peer_id.clone(),
            device_name: ad.device_name.clone(),
            addr: from.to_owned(),
            last_seen: now,
        };
        let mut peers: Vec<DiscoveredPeer> = Vec::new();
        std::mem::swap(&mut peers, &mut self.peers);
        peers.push(p);
        proof {
            assert(peers_view(peers@) =~= old_view.push(p@));
            assert(unique_ids(peers_view(peers@)));
        }
        self.peers = peers;
    }

    /// Drop the peers not seen within `forget_after` milliseconds of `now`
    /// and return the live ones, ordered by device name.
    pub fn live_peers(&mut self, now: u64, forget_after: u64) -> (r: Vec<DiscoveredPeer>)
        ensures
            final(self)@ == live_subseq(old(self)@, now, forget_after),
            unique_ids(final(self)@),
            peers_view(r@) == sort_by_name(final(self)@),
            sorted_by_name(peers_view(r@)),
            forall|i: int, j: int|
                0 <= i < j < r@.len() && r@[i].device_name@ != r@[j].device_name@ ==> !lex_le(
                    #[trigger] r@[j].device_name@,
                    #[trigger] r@[i].device_name@,
                ),
            unique_ids(peers_view(r@)),
            peers_view(r@).to_multiset() == final(self)@.to_multiset(),
    {
        proof {
            use_type_invariant(&*self);
        }
        let ghost old_view = self@;
        let mut old_peers: Vec<DiscoveredPeer> = Vec::new();
        std::mem::swap(&mut old_peers, &mut self.peers);
        let mut kept: Vec<DiscoveredPeer> = Vec::new();
        let mut i: usize = 0;
        while i < old_peers.len()
            invariant
                i <= old_peers.len(),
                peers_view(old_peers@) == old_view,
                peers_view(kept@) == live_subseq(old_view.take(i as int), now, forget_after),
            decreases old_peers.len() - i,
        {
            let ghost before = kept@;
            let last_seen = old_peers[i].last_seen;
            let age: u64 = if now >= last_seen {
                now - last_seen
            } else {
                0
            };
            proof {
                assert(old_view.take(i + 1).drop_last() =~= old_view.take(i as int));
                assert(old_view.take(i + 1).last() == old_view[i as int]);
            }
            if age < forget_after {
                kept.push(old_peers[i].duplicate());
                assert(peers_view(kept@) =~= peers_view(before).push(old_view[i as int]));
            }
            i = i + 1;
        }
        proof {
            assert(old_view.take(old_peers.len() as int) =~= old_view);
            lemma_live_subseq_unique(old_view, now, forget_after);
        }
        let mut sorted: Vec<DiscoveredPeer> = Vec::new();
        let mut j: usize = 0;
        assert(peers_view(sorted@) =~= peers_view(kept@).take(0));
        while j < kept.len()
            invariant
                j <= kept.len(),
                peers_view(sorted@) == sort_by_name(peers_view(kept@).take(j as int)),
                sorted_by_name(peers_view(sorted@)),
                unique_ids(peers_view(sorted@)),
                unique_ids(peers_view(kept@)),
                peers_view(sorted@).to_multiset() == peers_view(kept@).take(j as int).to_multiset(),
            decreases kept.len() - j,
        {
            let x = kept[j].duplicate();
            let x_name = chars_of(x.device_name.as_str());
            let mut p: usize = 0;
            while p < sorted.len() && name_le(&sorted[p], &x_name)
                invariant
                    p <= sorted.len(),
                    x_name@ == x.device_name@,
                    forall|k: int| 0 <= k < p ==> lex_le(#[trigger] sorted@[k].device_name@, x.device_name@),
                decreases sorted.len() - p,
            {
                p = p + 1;
            }
            let ghost s_old = peers_view(sorted@);
            proof {
                if p < sorted.len() {
                    lemma_lex_total(sorted@[p as int].device_name@, x.device_name@);
                }
            }
            sorted.insert(p, x);
            proof {
                let s_new = peers_view(sorted@);
                assert(s_new =~= s_old.insert(p as int, x@));
                assert forall|a: int, b: int| 0 <= a < b < s_new.len() implies lex_le(
                    #[trigger] s_new[a].device_name,
                    #[trigger] s_new[b].device_name,
                ) by {
                    if a < p && b == p {
                    } else if a == p && b > p {
                        assert(lex_le(x@.device_name, s_old[p as int].device_name));
                        if b > p + 1 {
                            assert(lex_le(s_old[p as int].device_name, s_old[b - 1].device_name));
                            lemma_lex_trans(x@.device_name, s_old[p as int].device_name, s_old[b - 1].device_name);
                        }
                    } else if a < p && b > p {
                        assert(lex_le(s_old[a].device_name, s_old[b - 1].device_name));
                    } else if a > p {
                        assert(lex_le(s_old[a - 1].device_name, s_old[b - 1].device_name));
                    }
                }
                let kv = peers_view(kept@);
                assert forall|k: int| 0 <= k < s_old.len() implies #[trigger] s_old[k].peer_id
                    != x@.peer_id by {
                    let e = s_old[k];
                    assert(s_old.contains(e));
                    s_old.to_multiset_ensures();
                    kv.take(j as int).to_multiset_ensures();
                    assert(s_old.to_multiset().count(e) > 0);
                    assert(kv.take(j as int).to_multiset().count(e) > 0);
                    assert(kv.take(j as int).contains(e));
                    let m = choose|m: int| 0 <= m < j && kv.take(j as int)[m] == e;
                    assert(kv[m] == e);
                    assert(kv[j as int] == x@);
                }
                assert forall|a: int, b: int| 0 <= a < b < s_new.len() implies #[trigger] s_new[a].peer_id
                    != #[trigger] s_new[b].peer_id by {
                    if a == p {
                        assert(s_new[b] == s_old[b - 1]);
                    } else if b == p {
                        assert(s_new[a] == s_old[a]);
                    } else {
                        let ia = if a < p { a } else { a - 1 };
                        let ib = if b < p { b } else { b - 1 };
                        assert(s_new[a] == s_old[ia] && s_new[b] == s_old[ib]);
                    }
                }
                assert(peers_view(kept@).take(j + 1) =~= peers_view(kept@).take(j as int).push(x@));
                assert(peers_view(kept@).take(j + 1).drop_last() =~= peers_view(kept@).take(j as int));
                lemma_insert_by_name_at(s_old, x@, p as int);
                vstd::seq_lib::to_multiset_insert(s_old, p as int, x@);
                vstd::seq_lib::to_multiset_build(peers_view(kept@).take(j as int), x@);
            }
            j = j + 1;
        }
        assert(peers_view(kept@).take(kept.len() as int) =~= peers_view(kept@));
        assert(unique_ids(peers_view(kept@)));
        assert forall|i: int, j: int|
            0 <= i < j < sorted@.len() && sorted@[i].device_name@ != sorted@[j].device_name@ implies !lex_le(
            #[trigger] sorted@[j].device_name@,
            #[trigger] sorted@[i].device_name@,
        ) by {
            let sv = peers_view(sorted@);
            assert(lex_le(sv[i].device_name, sv[j].device_name));
            if lex_le(sorted@[j].device_name@, sorted@[i].device_name@) {
                lemma_lex_antisymmetric(sorted@[i].device_name@, sorted@[j].device_name@);
            }
        }
        self.peers = kept;
        sorted
    }
}

/// An announcement always leaves its peer in the table with the address and
/// time of the announcement, keeps peer ids unique, grows the table by at
/// most one entry, and leaves every other peer untouched.
pub proof fn lemma_announcement_records_peer(
    peers: Seq<PeerView>,
    peer_id: Seq<char>,
    device_name: Seq<char>,
    from: Seq<char>,
    now: u64,
)
    requires
        unique_ids(peers),
    ensures
        ({
            let t = after_announcement(peers, peer_id, device_name, from, now);
            &&& unique_ids(t)
            &&& exists|i: int|
                0 <= i < t.len() && #[trigger] t[i].peer_id == peer_id && t[i].addr == from
                    && t[i].last_seen == now
            &&& t.len() == peers.len() || t.len() == peers.len() + 1
            &&& forall|i: int|
                0 <= i < peers.len() && #[trigger] peers[i].peer_id != peer_id ==> t[i] == peers[i]
        }),
{
    let t = after_announcement(peers, peer_id, device_name, from, now);
    if exists|i: int| 0 <= i < peers.len() && #[trigger] peers[i].peer_id == peer_id {
        let c = choose|i: int| 0 <= i < peers.len() && #[trigger] peers[i].peer_id == peer_id;
        assert(t[c].peer_id == peer_id);
        assert forall|i: int, j: int| 0 <= i < j < t.len() implies #[trigger] t[i].peer_id
            != #[trigger] t[j].peer_id by {
            assert(t[i].peer_id == peers[i].peer_id);
            assert(t[j].peer_id == peers[j].peer_id);
        }
    } else {
        let n = peers.len() as int;
        assert(t[n].peer_id == peer_id);
        assert forall|i: int, j: int| 0 <= i < j < t.len() implies #[trigger] t[i].peer_id
            != #[trigger] t[j].peer_id by {
            if j == n {
                assert(peers[i].peer_id != peer_id);
            }
        }
    }
}

/// The live entries are exactly the table's entries still live at `now`.
pub proof fn lemma_live_subseq_exact(peers: Seq<PeerView>, now: u64, forget_after: u64, x: PeerView)
    ensures
        live_subseq(peers, now, forget_after).contains(x) <==> (peers.contains(x) && is_live(
            x.last_seen,
            now,
            forget_after,
        )),
    decreases peers.len(),
{
    if live_subseq(peers, now, forget_after).contains(x) {
        lemma_live_subseq_contains(peers, now, forget_after, x);
    }
    if peers.contains(x) && is_live(x.last_seen, now, forget_after) {
        let k = choose|k: int| 0 <= k < peers.len() && peers[k] == x;
        let init = peers.drop_last();
        let rest = live_subseq(init, now, forget_after);
        if k == peers.len() - 1 {
            assert(live_subseq(peers, now, forget_after) == rest.push(x));
            assert(rest.push(x)[rest.len() as int] == x);
        } else {
            assert(init[k] == x);
            lemma_live_subseq_exact(init, now, forget_after, x);
            let m = choose|m: int| 0 <= m < rest.len() && rest[m] == x;
            if is_live(peers.last().last_seen, now, forget_after) {
                assert(rest.push(peers.last())[m] == x);
            }
        }
    }
}

fn name_le(p: &DiscoveredPeer, x: &Vec<char>) -> (r: bool)
    ensures
        r == lex_le(p.device_name@, x@),
{
    let a = chars_of(p.device_name.as_str());
    lex_le_chars(&a, x)
}

fn lex_le_chars(a: &Vec<char>, b: &Vec<char>) -> (r: bool)
    ensures
        r == lex_le(a@, b@),
{
    let mut i: usize = 0;
    assert(a@.skip(0) =~= a@);
    assert(b@.skip(0) =~= b@);
    while i < a.len() && i < b.len() && a[i] == b[i]
        invariant
            i <= a.len(),
            i <= b.len(),
            lex_le(a@, b@) == lex_le(a@.skip(i as int), b@.skip(i as int)),
        decreases a.len() - i,
    {
        proof {
            assert(a@.skip(i as int).drop_first() =~= a@.skip(i + 1));
            assert(b@.skip(i as int).drop_first() =~= b@.skip(i + 1));
        }
        i = i + 1;
    }
    if i == a.len() {
        true
    } else if i == b.len() {
        false
    } else {
        a[i] < b[i]
    }
}

} // verus!

//! The set of known sync peers: at most one record per node id, in the
//! order in which the peers were first seen.
use vstd::prelude::*;
use crate::net::SocketAddress;
use crate::text::str_equal;

verus! {

broadcast use vstd::string::group_string_axioms;

#[verifier::external_type_specification]
#[verifier::external_body]
pub struct ExInstant(std::time::Instant);

/// Calls `std::time::Instant::now()`.  The reading comes from the system's
/// monotonic clock; nothing is stated of it.
#[verifier::external_body]
fn instant_now() -> (r: std::time::Instant) {
    std::time::Instant::now()
}

/// A peer node: its id, an optional display name, where it was last
/// reached and when it was last heard from.
#[derive(Debug)]
pub struct Peer {
    pub node_id: String,
    pub display_name: Option<String>,
    pub addr: SocketAddress,
    pub last_seen: std::time::Instant,
}

impl Clone for Peer {
    fn clone(&self) -> (r: Self)
        ensures
            r == *self,
    {
        Peer {
            node_id: self.node_id.clone(),
            display_name: match &self.display_name {
                Some(n) => Some(n.clone()),
                None => None,
            },
            addr: self.addr,
            last_seen: self.last_seen,
        }
    }
}

/// No two records share a node id.
pub open spec fn ids_unique(peers: Seq<Peer>) -> bool {
    forall|i: int, j: int|
        0 <= i < j < peers.len() ==> #[trigger] peers[i].node_id@ != #[trigger] peers[j].node_id@
}

/// Some record has node id `id`.
pub open spec fn has_peer(peers: Seq<Peer>, id: Seq<char>) -> bool {
    exists|i: int| 0 <= i < peers.len() && #[trigger] peers[i].node_id@ == id
}

/// The record with node id `id`, if any.
pub open spec fn peer_with(peers: Seq<Peer>, id: Seq<char>) -> Option<Peer> {
    if has_peer(peers, id) {
        Some(peers[choose|i: int| 0 <= i < peers.len() && #[trigger] peers[i].node_id@ == id])
    } else {
        None
    }
}

/// The record that a registration of `id` wrote carries the sighting time
/// `now`: the existing record for `id`, or the one appended.
pub open spec fn stamped(before: Seq<Peer>, after: Seq<Peer>, id: Seq<char>, now: std::time::Instant) -> bool {
    if has_peer(before, id) {
        after[choose|i: int| 0 <= i < before.len() && #[trigger] before[i].node_id@ == id].last_seen == now
    } else {
        after[before.len() as int].last_seen == now
    }
}

/// The records other than the one with node id `id`, in order.
pub open spec fn without_peer(peers: Seq<Peer>, id: Seq<char>) -> Seq<Peer> {
    peers.filter(other_than(id))
}

/// Holds of the records whose node id is not `id`.
pub open spec fn other_than(id: Seq<char>) -> spec_fn(Peer) -> bool {
    |p: Peer| p.node_id@ != id
}

/// The display name a record keeps after a registration that gave `given`.
pub open spec fn kept_name(old_name: Option<String>, given: Option<String>) -> Option<String> {
    match given {
        Some(n) => Some(n),
        None => old_name,
    }
}

/// What `register_peer(id, name, addr)` does to the records: an existing
/// record for `id` gets the new address, a fresh sighting time, and the new
/// display name when one is given; otherwise a record is appended.
pub open spec fn registered(
    before: Seq<Peer>,
    after: Seq<Peer>,
    id: String,
    name: Option<String>,
    addr: SocketAddress,
) -> bool {
    if has_peer(before, id@) {
        let i = choose|i: int| 0 <= i < before.len() && #[trigger] before[i].node_id@ == id@;
        &&& after.len() == before.len()
        &&& forall|j: int| 0 <= j < before.len() && j != i ==> after[j] == before[j]
        &&& after[i].node_id == before[i].node_id
        &&& after[i].addr == addr
        &&& after[i].display_name == kept_name(before[i].display_name, name)
    } else {
        &&& after.len() == before.len() + 1
        &&& after.take(before.len() as int) == before
        &&& after[before.len() as int].node_id == id
        &&& after[before.len() as int].display_name == name
        &&& after[before.len() as int].addr == addr
    }
}

/// The known peers.
pub struct DiscoveryService {
    peers: Vec<Peer>,
}

impl DiscoveryService {
    /// Node ids stay unique.
    #[verifier::type_invariant]
    spec fn unique_ids(self) -> bool {
        ids_unique(self.peers@)
    }
}

impl View for DiscoveryService {
    type V = Seq<Peer>;

    closed spec fn view(&self) -> Seq<Peer> {
        self.peers@
    }
}

impl DiscoveryService {
    /// A service that knows no peer.
    pub fn new() -> (s: Self)
        ensures
            s@ == Seq::<Peer>::empty(),
    {
        DiscoveryService { peers: Vec::new() }
    }

    /// Index of the record with node id `id`.
    fn position(&self, id: &str) -> (r: Option<usize>)
        ensures
            match r {
                Some(i) => i < self@.len() && self@[i as int].node_id@ == id@,
                None => !has_peer(self@, id@),
            },
    {
        let mut i: usize = 0;
        while i < self.peers.len()
            invariant
                i <= self.peers@.len(),
                forall|j: int| 0 <= j < i ==> self.peers@[j].node_id@ != id@,
            decreases self.peers@.len() - i,
        {
            if str_equal(self.peers[i].node_id.as_str(), id) {
                return Some(i);
            }
            i = i + 1;
        }
        None
    }

    /// Records that `node_id` was just heard from at `addr`, now by the
    /// system's monotonic clock (see `register_peer_at`).
    pub fn register_peer(&mut self, node_id: String, display_name: Option<String>, addr: SocketAddress)
        ensures
            ids_unique(old(self)@),
            ids_unique(final(self)@),
            registered(old(self)@, final(self)@, node_id, display_name, addr),
    {
        let now = instant_now();
        self.register_peer_at(node_id, display_name, addr, now);
    }

    /// Records that `node_id` was heard from at `addr` at the instant `now`.
    pub fn register_peer_at(
        &mut self,
        node_id: String,
        display_name: Option<String>,
        addr: SocketAddress,
        now: std::time::Instant,
    )
        ensures
            ids_unique(old(self)@),
            ids_unique(final(self)@),
            registered(old(self)@, final(self)@, node_id, display_name, addr),
            stamped(old(self)@, final(self)@, node_id@, now),
    {
        proof {
            use_type_invariant(&*self);
        }
        let pos = self.position(node_id.as_str());
        let ghost old_peers = self.peers@;
        let mut peers: Vec<Peer> = Vec::new();
        std::mem::swap(&mut peers, &mut self.peers);
        match pos {
            Some(i) => {
                assert(old_peers[i as int].node_id@ == node_id@);
                let existing = peers[i].clone();
                let name = match display_name {
                    Some(n) => Some(n),
                    None => existing.display_name,
                };
                let updated = Peer {
                    node_id: existing.node_id,
                    display_name: name,
                    addr,
                    last_seen: now,
                };
                peers.set(i, updated);
                proof {
                    let k = choose|k: int|
                        0 <= k < old_peers.len() && #[trigger] old_peers[k].node_id@ == node_id@;
                    if k != i {
                        if k < i {
                            assert(old_peers[k].node_id@ != old_peers[i as int].node_id@);
                        } else {
                            assert(old_peers[i as int].node_id@ != old_peers[k].node_id@);
                        }
                    }
                    assert forall|a: int, b: int|
                        0 <= a < b < peers@.len() implies #[trigger] peers@[a].node_id@
                        != #[trigger] peers@[b].node_id@ by {
                        assert(peers@[a].node_id@ == old_peers[a].node_id@);
                        assert(peers@[b].node_id@ == old_peers[b].node_id@);
                    }
                }
            },
            None => {
                let peer = Peer { node_id, display_name, addr, last_seen: now };
                peers.push(peer);
                proof {
                    assert(peers@.take(old_peers.len() as int) =~= old_peers);
                    assert forall|a: int, b: int|
                        0 <= a < b < peers@.len() implies #[trigger] peers@[a].node_id@
                        != #[trigger] peers@[b].node_id@ by {
                        if b == old_peers.len() {
                            assert(old_peers[a].node_id@ != node_id@);
                        }
                    }
                }
            },
        }
        self.peers = peers;
    }

    /// All known peers, in the order they were first seen.
    pub fn get_peers(&self) -> (r: Vec<Peer>)
        ensures
            r@ == self@,
            ids_unique(self@),
    {
        proof {
            use_type_invariant(self);
        }
        let mut r: Vec<Peer> = Vec::new();
        let mut i: usize = 0;
        while i < self.peers.len()
            invariant
                i <= self.peers@.len(),
                r@ == self.peers@.take(i as int),
            decreases self.peers@.len() - i,
        {
            r.push(self.peers[i].clone());
            assert(self.peers@.take(i + 1) == self.peers@.take(i as int).push(self.peers@[i as int]));
            i = i + 1;
        }
        assert(self.peers@.take(self.peers@.len() as int) == self.peers@);
        r
    }

    /// The record of `node_id`, if it is known.
    pub fn get_peer(&self, node_id: &str) -> (r: Option<Peer>)
        ensures
            ids_unique(self@),
            r == peer_with(self@, node_id@),
    {
        proof {
            use_type_invariant(self);
        }
        match self.position(node_id) {
            Some(i) => {
                proof {
                    let k = choose|k: int|
                        0 <= k < self@.len() && #[trigger] self@[k].node_id@ == node_id@;
                    if k != i {
                        if k < i {
                            assert(self@[k].node_id@ != self@[i as int].node_id@);
                        } else {
                            assert(self@[i as int].node_id@ != self@[k].node_id@);
                        }
                    }
                }
                Some(self.peers[i].clone())
            },
            None => None,
        }
    }

    /// Forgets the record of `node_id`, keeping the others in order.
    pub fn remove_peer(&mut self, node_id: &str)
        ensures
            ids_unique(old(self)@),
            ids_unique(final(self)@),
            final(self)@ == without_peer(old(self)@, node_id@),
    {
        proof {
            use_type_invariant(&*self);
        }
        let ghost old_peers = self.peers@;
        let ghost keep = other_than(node_id@);
        let mut kept: Vec<Peer> = Vec::new();
        let mut i: usize = 0;
        while i < self.peers.len()
            invariant
                i <= self.peers@.len(),
                self.peers@ == old_peers,
                ids_unique(old_peers),
                keep == other_than(node_id@),
                kept@ == old_peers.take(i as int).filter(keep),
            decreases self.peers@.len() - i,
        {
            proof {
                reveal_with_fuel(Seq::filter, 1);
                let t1 = old_peers.take(i + 1);
                assert(t1.drop_last() =~= old_peers.take(i as int));
                assert(t1.last() == old_peers[i as int]);
                assert(t1.filter(keep) == if keep(old_peers[i as int]) {
                    old_peers.take(i as int).filter(keep).push(old_peers[i as int])
                } else {
                    old_peers.take(i as int).filter(keep)
                });
            }
            let same = str_equal(self.peers[i].node_id.as_str(), node_id);
            if !same {
                kept.push(self.peers[i].clone());
            }
            i = i + 1;
        }
        assert(old_peers.take(old_peers.len() as int) =~= old_peers);
        proof {
            lemma_filter_keeps_unique(old_peers, keep);
        }
        self.peers = kept;
    }
}

impl Default for DiscoveryService {
    fn default() -> (s: Self)
        ensures
            s@ == Seq::<Peer>::empty(),
    {
        DiscoveryService::new()
    }
}

proof fn lemma_filter_keeps_unique(peers: Seq<Peer>, keep: spec_fn(Peer) -> bool)
    requires
        ids_unique(peers),
    ensures
        ids_unique(peers.filter(keep)),
    decreases peers.len(),
{
    reveal_with_fuel(Seq::filter, 1);
    if peers.len() > 0 {
        let init = peers.drop_last();
        assert(ids_unique(init));
        lemma_filter_keeps_unique(init, keep);
        let f = init.filter(keep);
        if keep(peers.last()) {
            assert forall|a: int, b: int|
                0 <= a < b < f.push(peers.last()).len() implies #[trigger] f.push(
                peers.last(),
            )[a].node_id@ != #[trigger] f.push(peers.last())[b].node_id@ by {
                if b == f.len() {
                    init.lemma_filter_contains_rev(keep, f[a]);
                    let k = choose|k: int| 0 <= k < init.len() && init[k] == f[a];
                    assert(peers[k] == init[k]);
                    assert(peers[k].node_id@ != peers[peers.len() - 1].node_id@);
                }
            }
        }
    }
}

/// After registering a node, asking for it gives its new address, and its
/// display name is the one given, or the one it had when none was given.
pub proof fn lemma_register_then_get(
    before: Seq<Peer>,
    after: Seq<Peer>,
    id: String,
    name: Option<String>,
    addr: SocketAddress,
)
    requires
        ids_unique(before),
        ids_unique(after),
        registered(before, after, id, name, addr),
    ensures
        peer_with(after, id@) matches Some(p) && p.addr == addr && p.node_id@ == id@
            && p.display_name == kept_name(
            match peer_with(before, id@) {
                Some(q) => q.display_name,
                None => None,
            },
            name,
        ),
{
    if has_peer(before, id@) {
        let i = choose|i: int| 0 <= i < before.len() && #[trigger] before[i].node_id@ == id@;
        assert(after[i].node_id@ == id@);
        assert(has_peer(after, id@));
        let k = choose|k: int| 0 <= k < after.len() && #[trigger] after[k].node_id@ == id@;
        if k != i {
            if k < i {
                assert(after[k].node_id@ != after[i].node_id@);
            } else {
                assert(after[i].node_id@ != after[k].node_id@);
            }
        }
    } else {
        let n = before.len() as int;
        assert(after[n].node_id@ == id@);
        assert(has_peer(after, id@));
        let k = choose|k: int| 0 <= k < after.len() && #[trigger] after[k].node_id@ == id@;
        if k != n {
            assert(after[k].node_id@ != after[n].node_id@);
        }
    }
}

/// After registering a node at the instant `now`, its record carries `now`
/// as the time it was last seen.
pub proof fn lemma_register_stamps(
    before: Seq<Peer>,
    after: Seq<Peer>,
    id: String,
    name: Option<String>,
    addr: SocketAddress,
    now: std::time::Instant,
)
    requires
        ids_unique(before),
        ids_unique(after),
        registered(before, after, id, name, addr),
        stamped(before, after, id@, now),
    ensures
        peer_with(after, id@) matches Some(p) && p.node_id@ == id@ && p.last_seen == now,
{
    lemma_register_then_get(before, after, id, name, addr);
    if has_peer(before, id@) {
        let i = choose|i: int| 0 <= i < before.len() && #[trigger] before[i].node_id@ == id@;
        assert(after[i].node_id@ == id@);
        let k = choose|i: int| 0 <= i < after.len() && #[trigger] after[i].node_id@ == id@;
        if k != i {
            if k < i {
                assert(after[k].node_id@ != after[i].node_id@);
            } else {
                assert(after[i].node_id@ != after[k].node_id@);
            }
        }
    } else {
        let n = before.len() as int;
        assert(after[n].node_id@ == id@);
        let k = choose|i: int| 0 <= i < after.len() && #[trigger] after[i].node_id@ == id@;
        if k != n {
            assert(after[k].node_id@ != after[n].node_id@);
        }
    }
}

/// Registering a node leaves every other node's record as it was.
pub proof fn lemma_register_keeps_others(
    before: Seq<Peer>,
    after: Seq<Peer>,
    id: String,
    name: Option<String>,
    addr: SocketAddress,
    other: Seq<char>,
)
    requires
        ids_unique(before),
        ids_unique(after),
        registered(before, after, id, name, addr),
        other != id@,
    ensures
        peer_with(after, other) == peer_with(before, other),
{
    if has_peer(before, other) {
        let k = choose|k: int| 0 <= k < before.len() && #[trigger] before[k].node_id@ == other;
        if has_peer(before, id@) {
            let i = choose|i: int| 0 <= i < before.len() && #[trigger] before[i].node_id@ == id@;
            assert(k != i);
            assert(after[k] == before[k]);
        } else {
            assert(after[k] == before[k]) by {
                assert(after.take(before.len() as int)[k] == after[k]);
            }
        }
        assert(has_peer(after, other));
        let k2 = choose|k2: int| 0 <= k2 < after.len() && #[trigger] after[k2].node_id@ == other;
        if k2 != k {
            if k2 < k {
                assert(after[k2].node_id@ != after[k].node_id@);
            } else {
                assert(after[k].node_id@ != after[k2].node_id@);
            }
        }
    } else {
        if has_peer(after, other) {
            let k2 = choose|k2: int| 0 <= k2 < after.len() && #[trigger] after[k2].node_id@ == other;
            if has_peer(before, id@) {
                let i = choose|i: int| 0 <= i < before.len() && #[trigger] before[i].node_id@ == id@;
                if k2 == i {
                    assert(after[i].node_id == before[i].node_id);
                } else {
                    assert(after[k2] == before[k2]);
                }
            } else if k2 < before.len() {
                assert(after.take(before.len() as int)[k2] == after[k2]);
                assert(before[k2].node_id@ == other);
            }
        }
    }
}

/// After removing a node, asking for it gives nothing.
pub proof fn lemma_remove_then_get(before: Seq<Peer>, id: Seq<char>)
    ensures
        peer_with(without_peer(before, id), id) is None,
{
    let after = without_peer(before, id);
    if has_peer(after, id) {
        let k = choose|k: int| 0 <= k < after.len() && #[trigger] after[k].node_id@ == id;
        before.lemma_filter_pred(other_than(id), k);
    }
}

/// Removing one node leaves every other node's record as it was.
pub proof fn lemma_remove_keeps_others(before: Seq<Peer>, id: Seq<char>, other: Seq<char>)
    requires
        ids_unique(before),
        other != id,
    ensures
        peer_with(without_peer(before, id), other) == peer_with(before, other),
{
    let after = without_peer(before, id);
    if has_peer(before, other) {
        let k = choose|k: int| 0 <= k < before.len() && #[trigger] before[k].node_id@ == other;
        before.lemma_filter_contains(other_than(id), k);
        let j = choose|j: int| 0 <= j < after.len() && after[j] == before[k];
        assert(after[j].node_id@ == other);
        assert(has_peer(after, other));
        let k2 = choose|i: int| 0 <= i < after.len() && #[trigger] after[i].node_id@ == other;
        assert(after.contains(after[k2]));
        before.lemma_filter_contains_rev(other_than(id), after[k2]);
        let m = choose|m: int| 0 <= m < before.len() && before[m] == after[k2];
        if m != k {
            if m < k {
                assert(before[m].node_id@ != before[k].node_id@);
            } else {
                assert(before[k].node_id@ != before[m].node_id@);
            }
        }
        assert(before[k] == after[k2]);
        lemma_filter_keeps_unique(before, other_than(id));
        assert(peer_with(before, other) == Some(before[k]));
    } else {
        if has_peer(after, other) {
            let k2 = choose|k2: int| 0 <= k2 < after.len() && #[trigger] after[k2].node_id@ == other;
            assert(after.contains(after[k2]));
            before.lemma_filter_contains_rev(other_than(id), after[k2]);
            let m = choose|m: int| 0 <= m < before.len() && before[m] == after[k2];
            assert(before[m].node_id@ == other);
        }
    }
}

/// A call on the registry: `register_peer(id, name, addr)` or
/// `remove_peer(id)`.
pub enum PeerOp {
    Register(String, Option<String>, SocketAddress),
    Remove(String),
}

/// `after` is what the call `op` leaves of the records `before`.
pub open spec fn applied(before: Seq<Peer>, op: PeerOp, after: Seq<Peer>) -> bool {
    match op {
        PeerOp::Register(id, name, addr) => registered(before, after, id, name, addr),
        PeerOp::Remove(id) => after == without_peer(before, id@),
    }
}

/// `states` are the records a new registry goes through under the calls
/// `ops`: empty at first, each next one what the call made of the one before.
pub open spec fn ran(ops: Seq<PeerOp>, states: Seq<Seq<Peer>>) -> bool {
    &&& states.len() == ops.len() + 1
    &&& states[0] == Seq::<Peer>::empty()
    &&& forall|i: int| 0 <= i < states.len() ==> ids_unique(#[trigger] states[i])
    &&& forall|i: int| 0 <= i < ops.len() ==> applied(#[trigger] states[i], ops[i], states[i + 1])
}

/// Index of the last call among `ops` that registers `id`, or -1.
pub open spec fn last_register(ops: Seq<PeerOp>, id: Seq<char>) -> int
    decreases ops.len(),
{
    if ops.len() == 0 {
        -1
    } else if ops.last() matches PeerOp::Register(i, _, _) && i@ == id {
        ops.len() - 1
    } else {
        last_register(ops.drop_last(), id)
    }
}

/// Index of the last call among `ops` that removes `id`, or -1.
pub open spec fn last_remove(ops: Seq<PeerOp>, id: Seq<char>) -> int
    decreases ops.len(),
{
    if ops.len() == 0 {
        -1
    } else if ops.last() matches PeerOp::Remove(i) && i@ == id {
        ops.len() - 1
    } else {
        last_remove(ops.drop_last(), id)
    }
}

/// The address given by the call at index `k`, if it registers a node.
pub open spec fn registered_addr(ops: Seq<PeerOp>, k: int) -> Option<SocketAddress> {
    if 0 <= k < ops.len() {
        match ops[k] {
            PeerOp::Register(_, _, addr) => Some(addr),
            PeerOp::Remove(_) => None,
        }
    } else {
        None
    }
}

/// What a registry that went through `ops` holds for `id`.
pub open spec fn holds_after(ops: Seq<PeerOp>, id: Seq<char>, records: Seq<Peer>) -> bool {
    if last_register(ops, id) > last_remove(ops, id) {
        peer_with(records, id) matches Some(q) && q.node_id@ == id && Some(q.addr) == registered_addr(
            ops,
            last_register(ops, id),
        )
    } else {
        peer_with(records, id) is None
    }
}

proof fn lemma_ran_prefix(ops: Seq<PeerOp>, states: Seq<Seq<Peer>>, k: int, id: Seq<char>)
    requires
        ran(ops, states),
        0 <= k <= ops.len(),
    ensures
        holds_after(ops.take(k), id, states[k]),
    decreases k,
{
    if k == 0 {
        assert(ops.take(0).len() == 0);
    } else {
        lemma_ran_prefix(ops, states, k - 1, id);
        let pre = ops.take(k - 1);
        let cur = ops.take(k);
        assert(cur.drop_last() =~= pre);
        assert(cur.last() == ops[k - 1]);
        assert(applied(states[k - 1], ops[k - 1], states[k]));
        assert(ids_unique(states[k - 1]));
        assert(ids_unique(states[k]));
        let lr = last_register(pre, id);
        let lm = last_remove(pre, id);
        assert(-1 <= lr < k - 1 && -1 <= lm < k - 1) by {
            lemma_last_bounds(pre, id);
        }
        if lr >= 0 {
            assert(registered_addr(cur, lr) == registered_addr(pre, lr));
        }
        match ops[k - 1] {
            PeerOp::Register(i, name, addr) => {
                if i@ == id {
                    lemma_register_then_get(states[k - 1], states[k], i, name, addr);
                } else {
                    lemma_register_keeps_others(states[k - 1], states[k], i, name, addr, id);
                }
            },
            PeerOp::Remove(i) => {
                if i@ == id {
                    lemma_remove_then_get(states[k - 1], id);
                } else {
                    lemma_remove_keeps_others(states[k - 1], i@, id);
                }
            },
        }
    }
}

proof fn lemma_last_bounds(ops: Seq<PeerOp>, id: Seq<char>)
    ensures
        -1 <= last_register(ops, id) < ops.len(),
        -1 <= last_remove(ops, id) < ops.len(),
    decreases ops.len(),
{
    if ops.len() > 0 {
        lemma_last_bounds(ops.drop_last(), id);
    }
}

/// After any sequence of registrations and removals on a new registry, a
/// node is known exactly when some call registered it and no later call
/// removed it; its record then carries its id and the address of its latest
/// registration.
pub proof fn lemma_registry_follows_calls(ops: Seq<PeerOp>, states: Seq<Seq<Peer>>, id: Seq<char>)
    requires
        ran(ops, states),
    ensures
        holds_after(ops, id, states[ops.len() as int]),
{
    lemma_ran_prefix(ops, states, ops.len() as int, id);
    assert(ops.take(ops.len() as int) =~= ops);
}

} // verus!

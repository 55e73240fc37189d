//! The directory of peers: for each role, how to reach the agent that plays it.

use vstd::prelude::*;

use crate::actors::AgentSnapshot;
use crate::role::Role;

verus! {

/// Maps each role to a snapshot of the configuration of the agent that plays
/// it and to the address of that agent's inbox. The address is an opaque
/// value: the directory stores it and hands it back.
#[derive(Debug)]
pub struct PeerRegistry<RoleType: Role, Addr> {
    peers: Vec<(RoleType, (AgentSnapshot<RoleType>, Addr))>,
}

/// No role is registered twice.
spec fn distinct_roles<RoleType, Peer>(peers: Seq<(RoleType, Peer)>) -> bool {
    forall|i: int, j: int|
        0 <= i < j < peers.len() ==> (#[trigger] peers[i]).0 != (#[trigger] peers[j]).0
}

/// The entry at `i` is registered under `role`.
spec fn is_peer_at<RoleType, Peer>(peers: Seq<(RoleType, Peer)>, role: RoleType, i: int) -> bool {
    0 <= i < peers.len() && peers[i].0 == role
}

/// The place of the entry registered under `role`.
spec fn peer_index<RoleType, Peer>(peers: Seq<(RoleType, Peer)>, role: RoleType) -> int {
    choose|i: int| is_peer_at(peers, role, i)
}

/// The mapping that a list of entries stands for.
spec fn peers_map<RoleType, Peer>(peers: Seq<(RoleType, Peer)>) -> Map<RoleType, Peer> {
    Map::new(
        |role: RoleType| exists|i: int| is_peer_at(peers, role, i),
        |role: RoleType| peers[peer_index(peers, role)].1,
    )
}

/// Each entry of a list without repeated roles is what the mapping holds
/// under the entry's role.
proof fn lemma_peer_in_map<RoleType, Peer>(peers: Seq<(RoleType, Peer)>, i: int)
    requires
        distinct_roles(peers),
        0 <= i < peers.len(),
    ensures
        peers_map(peers).contains_key(peers[i].0),
        peers_map(peers)[peers[i].0] == peers[i].1,
{
    let role = peers[i].0;
    assert(is_peer_at(peers, role, i));
    let j = peer_index(peers, role);
    assert(is_peer_at(peers, role, j));
    if i < j {
        assert(peers[i].0 == peers[j].0);
    } else if j < i {
        assert(peers[j].0 == peers[i].0);
    }
}

/// A role that no entry is registered under is not in the mapping.
proof fn lemma_peer_not_in_map<RoleType, Peer>(peers: Seq<(RoleType, Peer)>, role: RoleType)
    requires
        forall|i: int| 0 <= i < peers.len() ==> !is_peer_at(peers, role, i),
    ensures
        !peers_map(peers).contains_key(role),
{
    if peers_map(peers).contains_key(role) {
        let i = peer_index(peers, role);
        assert(is_peer_at(peers, role, i));
    }
}

impl<RoleType: Role, Addr> View for PeerRegistry<RoleType, Addr> {
    type V = Map<RoleType, (AgentSnapshot<RoleType>, Addr)>;

    closed spec fn view(&self) -> Map<RoleType, (AgentSnapshot<RoleType>, Addr)> {
        peers_map(self.peers@)
    }
}

impl<RoleType: Role, Addr> Default for PeerRegistry<RoleType, Addr> {
    fn default() -> (registry: Self)
        ensures
            registry@ == Map::<RoleType, (AgentSnapshot<RoleType>, Addr)>::empty(),
    {
        Self::new()
    }
}

impl<RoleType: Role, Addr> PeerRegistry<RoleType, Addr> {
    #[verifier::type_invariant]
    spec fn well_formed(self) -> bool {
        distinct_roles(self.peers@)
    }

    /// A directory that knows no peer.
    pub fn new() -> (registry: Self)
        ensures
            registry@ == Map::<RoleType, (AgentSnapshot<RoleType>, Addr)>::empty(),
    {
        let registry = PeerRegistry { peers: Vec::new() };
        assert(registry@ =~= Map::<RoleType, (AgentSnapshot<RoleType>, Addr)>::empty()) by {
            assert forall|role: RoleType| !registry@.contains_key(role) by {
                lemma_peer_not_in_map(registry.peers@, role);
            }
        }
        registry
    }

    /// Records where the agent that plays `role` is reached. An earlier entry
    /// for the same role is replaced; every other entry stays.
    pub fn register(
        &mut self,
        role: RoleType,
        agent: AgentSnapshot<RoleType>,
        addr: Addr,
    )
        ensures
            final(self)@ == old(self)@.insert(role, (agent, addr)),
    {
        proof {
            use_type_invariant(&*self);
        }
        let mut peers: Vec<(RoleType, (AgentSnapshot<RoleType>, Addr))> = Vec::new();
        std::mem::swap(&mut peers, &mut self.peers);
        let ghost before = peers@;
        let mut i: usize = 0;
        let mut found: bool = false;
        while i < peers.len() && !found
            invariant
                i <= peers@.len(),
                peers@ == before,
                !found ==> forall|k: int| 0 <= k < i ==> !is_peer_at(before, role, k),
                found ==> is_peer_at(before, role, i as int),
            decreases peers@.len() - i + (if found { 0int } else { 1int }),
        {
            if peers[i].0.same(&role) {
                found = true;
            } else {
                i += 1;
            }
        }
        if found {
            peers.set(i, (role, (agent, addr)));
        } else {
            peers.push((role, (agent, addr)));
        }
        proof {
            let after = peers@;
            let place: int = i as int;
            assert(after[place] == (role, (agent, addr)));
            assert(distinct_roles(after)) by {
                assert forall|a: int, b: int| 0 <= a < b < after.len() implies (
                #[trigger] after[a]).0 != (#[trigger] after[b]).0 by {
                    if a != place {
                        assert(after[a] == before[a]);
                        assert(found || !is_peer_at(before, role, a));
                    }
                    if b != place {
                        assert(after[b] == before[b]);
                        assert(found || !is_peer_at(before, role, b));
                    }
                }
            }
            let target = peers_map(before).insert(role, (agent, addr));
            lemma_peer_in_map(after, place);
            assert forall|other: RoleType| #[trigger]
                peers_map(after).contains_key(other) implies target.contains_key(other)
                && peers_map(after)[other] == target[other] by {
                if other != role {
                    let k = peer_index(after, other);
                    assert(is_peer_at(after, other, k));
                    assert(k != place);
                    assert(after[k] == before[k]);
                    assert(is_peer_at(before, other, k));
                    lemma_peer_in_map(before, k);
                    lemma_peer_in_map(after, k);
                }
            }
            assert forall|other: RoleType| #[trigger]
                target.contains_key(other) implies peers_map(after).contains_key(other) by {
                if other != role {
                    let k = peer_index(before, other);
                    assert(is_peer_at(before, other, k));
                    assert(k != place || !found);
                    assert(after[k] == before[k]);
                    assert(is_peer_at(after, other, k));
                }
            }
            assert(peers_map(after) =~= target);
        }
        self.peers = peers;
    }

    /// Looks a role up: the snapshot and the address registered for it, or
    /// nothing where the directory does not know the role.
    pub fn get(&self, role: RoleType) -> (peer: Option<&(AgentSnapshot<RoleType>, Addr)>)
        ensures
            match peer {
                Some(found) => self@.contains_key(role) && *found == self@[role],
                None => !self@.contains_key(role),
            },
    {
        proof {
            use_type_invariant(self);
        }
        let mut i: usize = 0;
        while i < self.peers.len()
            invariant
                i <= self.peers@.len(),
                distinct_roles(self.peers@),
                forall|k: int| 0 <= k < i ==> !is_peer_at(self.peers@, role, k),
            decreases self.peers@.len() - i,
        {
            if self.peers[i].0.same(&role) {
                proof {
                    lemma_peer_in_map(self.peers@, i as int);
                }
                return Some(&self.peers[i].1);
            }
            i += 1;
        }
        proof {
            lemma_peer_not_in_map(self.peers@, role);
        }
        None
    }
}

impl<RoleType: Role, Addr: Clone> Clone for PeerRegistry<RoleType, Addr> {
    /// Copies the directory: the copy knows the same roles, each with the same
    /// snapshot and a clone of its address.
    fn clone(&self) -> (copy: Self)
        ensures
            copy@.dom() == self@.dom(),
            forall|role: RoleType| #[trigger]
                self@.contains_key(role) ==> copy@[role].0 == self@[role].0 && cloned(
                    self@[role].1,
                    copy@[role].1,
                ),
    {
        proof {
            use_type_invariant(self);
        }
        let mut peers: Vec<(RoleType, (AgentSnapshot<RoleType>, Addr))> = Vec::new();
        let mut i: usize = 0;
        while i < self.peers.len()
            invariant
                i <= self.peers@.len(),
                peers@.len() == i,
                forall|k: int|
                    0 <= k < i ==> (#[trigger] peers@[k]).0 == self.peers@[k].0 && peers@[k].1.0
                        == self.peers@[k].1.0 && cloned(self.peers@[k].1.1, peers@[k].1.1),
            decreases self.peers@.len() - i,
        {
            let entry = &self.peers[i];
            peers.push((entry.0, (entry.1.0.clone(), entry.1.1.clone())));
            i += 1;
        }
        proof {
            assert(distinct_roles(peers@)) by {
                assert forall|a: int, b: int| 0 <= a < b < peers@.len() implies (
                #[trigger] peers@[a]).0 != (#[trigger] peers@[b]).0 by {
                    assert(self.peers@[a].0 != self.peers@[b].0);
                }
            }
            assert(peers_map(peers@).dom() =~= peers_map(self.peers@).dom()) by {
                assert forall|role: RoleType|
                    peers_map(peers@).contains_key(role) <==> peers_map(
                        self.peers@,
                    ).contains_key(role) by {
                    if peers_map(peers@).contains_key(role) {
                        let k = peer_index(peers@, role);
                        assert(is_peer_at(peers@, role, k));
                        assert(is_peer_at(self.peers@, role, k));
                    }
                    if peers_map(self.peers@).contains_key(role) {
                        let k = peer_index(self.peers@, role);
                        assert(is_peer_at(self.peers@, role, k));
                        assert(is_peer_at(peers@, role, k));
                    }
                }
            }
            assert forall|role: RoleType| #[trigger]
                peers_map(self.peers@).contains_key(role) implies peers_map(peers@)[role].0
                == peers_map(self.peers@)[role].0 && cloned(
                peers_map(self.peers@)[role].1,
                peers_map(peers@)[role].1,
            ) by {
                let k = peer_index(self.peers@, role);
                assert(is_peer_at(self.peers@, role, k));
                lemma_peer_in_map(self.peers@, k);
                lemma_peer_in_map(peers@, k);
            }
        }
        PeerRegistry { peers }
    }
}

/// The control message that hands an agent a complete directory.
pub struct UpdatePeers<RoleType: Role, Addr> {
    pub peers: PeerRegistry<RoleType, Addr>,
}

} // verus!

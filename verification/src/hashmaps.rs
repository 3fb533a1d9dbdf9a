//! The hash maps and sets of the protocol roles come from `hashbrown`; this
//! module makes their types known to the verifier, and tracks which peers
//! have stopped.
use vstd::prelude::*;
use hashbrown::HashSet;

verus! {

#[verifier::external_type_specification]
#[verifier::external_body]
#[verifier::reject_recursive_types(K)]
#[verifier::reject_recursive_types(V)]
#[verifier::reject_recursive_types(S)]
pub struct ExHashbrownMap<K, V, S>(hashbrown::HashMap<K, V, S>);

#[verifier::external_type_specification]
#[verifier::external_body]
#[verifier::reject_recursive_types(T)]
#[verifier::reject_recursive_types(S)]
pub struct ExHashbrownSet<T, S>(hashbrown::HashSet<T, S>);

#[verifier::external_type_specification]
#[verifier::external_body]
pub struct ExDefaultHashBuilder(hashbrown::hash_map::DefaultHashBuilder);

/// A set of ids: of peers, of proposals.
pub type IdSet = HashSet<u64>;

/// What an [`IdSet`] holds.
pub uninterp spec fn ids_of(s: IdSet) -> Set<u64>;

/// Calls `hashbrown::HashSet::new`: an empty set.
#[verifier::external_body]
pub(crate) fn new_id_set() -> (ids: IdSet)
    ensures
        ids_of(ids) == Set::<u64>::empty(),
{
    HashSet::new()
}

/// Calls `hashbrown::HashSet::insert`: whether the id was new.
#[verifier::external_body]
pub(crate) fn insert_id(ids: &mut IdSet, id: u64) -> (added: bool)
    ensures
        ids_of(*final(ids)) == ids_of(*old(ids)).insert(id),
        added == !ids_of(*old(ids)).contains(id),
{
    ids.insert(id)
}

/// Calls `hashbrown::HashSet::remove`: whether the id was there.
#[verifier::external_body]
pub(crate) fn remove_id(ids: &mut IdSet, id: u64) -> (removed: bool)
    ensures
        ids_of(*final(ids)) == ids_of(*old(ids)).remove(id),
        removed == ids_of(*old(ids)).contains(id),
{
    ids.remove(&id)
}

/// Calls `hashbrown::HashSet::contains`.
#[verifier::external_body]
pub(crate) fn contains_id(ids: &IdSet, id: u64) -> (found: bool)
    ensures
        found == ids_of(*ids).contains(id),
{
    ids.contains(&id)
}

/// Calls `hashbrown::HashSet::len`.
#[verifier::external_body]
pub(crate) fn id_count(ids: &IdSet) -> (count: usize)
    ensures
        count == ids_of(*ids).len(),
{
    ids.len()
}

/// Calls `hashbrown::HashSet::clear`.
#[verifier::external_body]
pub(crate) fn clear_ids(ids: &mut IdSet)
    ensures
        ids_of(*final(ids)) == Set::<u64>::empty(),
{
    ids.clear();
}

/// How a node stops: it stops itself when asked, tells its peers, and
/// answers the ask once every peer has told it that it stopped too.
pub struct PeerStops {
    pub stopped: bool,
    pub stopped_peers: IdSet,
    pub num_peers: usize,
    /// Whether an ask to stop waits for its answer.
    pub ask_pending: bool,
}

impl PeerStops {
    /// The stopped peers are finitely many.
    pub open spec fn wf(&self) -> bool {
        ids_of(self.stopped_peers).finite()
    }

    pub fn with(num_peers: usize) -> (s: PeerStops)
        ensures
            s.wf(),
            !s.stopped,
            !s.ask_pending,
            s.num_peers == num_peers,
            ids_of(s.stopped_peers) == Set::<u64>::empty(),
    {
        PeerStops { stopped: false, stopped_peers: new_id_set(), num_peers, ask_pending: false }
    }

    /// This node is asked to stop: it is stopped, and the ask is answered at
    /// once if every peer already stopped (`true`), else it waits.
    pub fn stop_self(&mut self) -> (reply_now: bool)
        ensures
            old(self).wf() ==> final(self).wf(),
            final(self).stopped,
            final(self).num_peers == old(self).num_peers,
            ids_of(final(self).stopped_peers) == ids_of(old(self).stopped_peers),
            reply_now == (ids_of(old(self).stopped_peers).len() == old(self).num_peers),
            final(self).ask_pending == !reply_now,
    {
        self.stopped = true;
        let reply_now = id_count(&self.stopped_peers) == self.num_peers;
        self.ask_pending = !reply_now;
        reply_now
    }

    /// Peer `pid` stopped. A peer stops once: a second stop from it is
    /// refused. The waiting ask is answered (`true`) once this node stopped
    /// and every peer did.
    pub fn peer_stopped(&mut self, pid: u64) -> (reply_now: bool)
        requires
            !ids_of(old(self).stopped_peers).contains(pid),
            old(self).stopped && ids_of(old(self).stopped_peers).insert(pid).len() == old(self).num_peers
                ==> old(self).ask_pending,
        ensures
            old(self).wf() ==> final(self).wf(),
            final(self).stopped == old(self).stopped,
            final(self).num_peers == old(self).num_peers,
            ids_of(final(self).stopped_peers) == ids_of(old(self).stopped_peers).insert(pid),
            reply_now == (old(self).stopped && ids_of(final(self).stopped_peers).len()
                == old(self).num_peers),
            final(self).ask_pending == (old(self).ask_pending && !reply_now),
    {
        insert_id(&mut self.stopped_peers, pid);
        let reply_now = self.stopped && id_count(&self.stopped_peers) == self.num_peers;
        if reply_now {
            self.ask_pending = false;
        }
        reply_now
    }

    /// A stop from peer `pid` arrives. It is refused (`None`, nothing
    /// changes) where the peer already stopped, or where it would complete
    /// the stops of a stopped node with no ask waiting for the answer; else
    /// it is taken as by [`PeerStops::peer_stopped`].
    pub fn handle_peer_stop(&mut self, pid: u64) -> (reply_now: Option<bool>)
        requires
            old(self).wf(),
        ensures
            final(self).wf(),
            final(self).stopped == old(self).stopped,
            final(self).num_peers == old(self).num_peers,
            ({
                let completes = old(self).stopped && ids_of(old(self).stopped_peers).insert(pid).len()
                    == old(self).num_peers;
                if ids_of(old(self).stopped_peers).contains(pid) || (completes && !old(
                    self,
                ).ask_pending) {
                    &&& reply_now is None
                    &&& ids_of(final(self).stopped_peers) == ids_of(old(self).stopped_peers)
                    &&& final(self).ask_pending == old(self).ask_pending
                } else {
                    &&& reply_now == Some(completes)
                    &&& ids_of(final(self).stopped_peers) == ids_of(old(self).stopped_peers).insert(pid)
                    &&& final(self).ask_pending == (old(self).ask_pending && !completes)
                }
            }),
    {
        if contains_id(&self.stopped_peers, pid) {
            return None;
        }
        let count = id_count(&self.stopped_peers);
        let completes = self.stopped && self.num_peers > 0 && count == self.num_peers - 1;
        proof {
            assert(ids_of(self.stopped_peers).insert(pid).len() == ids_of(self.stopped_peers).len() + 1);
        }
        if completes && !self.ask_pending {
            return None;
        }
        Some(self.peer_stopped(pid))
    }

    /// Forgets every stop, for a new run.
    pub fn reset(&mut self)
        ensures
            final(self).wf(),
            !final(self).stopped,
            !final(self).ask_pending,
            final(self).num_peers == old(self).num_peers,
            ids_of(final(self).stopped_peers) == Set::<u64>::empty(),
    {
        self.stopped = false;
        self.ask_pending = false;
        clear_ids(&mut self.stopped_peers);
    }
}

} // verus!

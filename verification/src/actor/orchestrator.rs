//! The bookkeeping of an actor group: which slots are live, which names
//! point at them, which are dormant, and what the group's strategy says
//! when one of them dies.
//!
//! A live slot's payload `L` is whatever the runtime keeps per actor (its
//! task, its channels); the orchestrator never looks inside it. Work that
//! needs the runtime (spawning a task, waiting for an answer) is done by the
//! caller between the steps here: [`Orchestrator::maintain`] hands back the
//! restarts it granted, [`Orchestrator::complete_restart`] takes the new
//! slot, and so on.

use crate::actor::dormant::{DormantStore, PassivateError, ReactivateError, WakePolicy};
use crate::proto::{OrchestrationStrategy, OrchestrationType, orchestration_type_code};
use std::collections::HashMap;
use vstd::hash_map::StringHashMap;
use vstd::prelude::*;
use vstd::std_specs::iter::IteratorSpec;

verus! {

broadcast use vstd::std_specs::hash::group_hash_axioms;

/// Whether a strategy with this restart limit allows one more restart after
/// `restarts` of them: below the limit, or without limit (`-1`).
pub open spec fn restart_permitted(restart_limit: i32, restarts: int) -> bool {
    restarts < restart_limit || restart_limit == -1
}

/// The restart counter after one more restart (it stops at `i32::MAX`).
pub open spec fn bumped(restarts: int) -> int {
    if restarts < i32::MAX {
        restarts + 1
    } else {
        restarts
    }
}

/// Reaping one finished id: `(restarts, live ids, restarted ids)` before
/// and after. An id that is not live (any more) is ignored; a live one
/// leaves the live set, and under the `Restart` type it is restarted while
/// the limit permits, which counts one restart.
pub open spec fn reap_step(
    strategy: OrchestrationStrategy,
    acc: (int, Set<u128>, Seq<u128>),
    id: u128,
) -> (int, Set<u128>, Seq<u128>) {
    let (restarts, live, restarted) = acc;
    if !live.contains(id) {
        acc
    } else if strategy.strategy_type == orchestration_type_code(OrchestrationType::Restart)
        && restart_permitted(strategy.restart_limit, restarts) {
        (bumped(restarts), live.remove(id), restarted.push(id))
    } else {
        (restarts, live.remove(id), restarted)
    }
}

/// Reaping a list of finished ids, in order.
pub open spec fn reap_all(
    strategy: OrchestrationStrategy,
    acc: (int, Set<u128>, Seq<u128>),
    ids: Seq<u128>,
) -> (int, Set<u128>, Seq<u128>)
    decreases ids.len(),
{
    if ids.len() == 0 {
        acc
    } else {
        reap_step(strategy, reap_all(strategy, acc, ids.drop_last()), ids.last())
    }
}

/// The deaths reported upward while reaping a list of finished ids, in
/// order: under the `Escalate` type, every id reaped (one that was still
/// live when its turn came); under any other type, none.
pub open spec fn escalations(strategy: OrchestrationStrategy, live: Set<u128>, ids: Seq<u128>) -> Seq<
    u128,
>
    decreases ids.len(),
{
    if ids.len() == 0 {
        Seq::empty()
    } else {
        let prev = escalations(strategy, live, ids.drop_last());
        let id = ids.last();
        if strategy.strategy_type == orchestration_type_code(OrchestrationType::Escalate)
            && live.contains(id) && !ids.drop_last().contains(id) {
            prev.push(id)
        } else {
            prev
        }
    }
}

/// What `maintain` hands back: the restarts it granted, and the deaths it
/// escalates to the caller.
#[derive(Debug)]
pub struct Reaping {
    pub restarts: Vec<RestartOrder>,
    pub escalated: Vec<u128>,
}

/// A restart that `maintain` granted: the id that died and the name it
/// was registered under, which the new actor inherits.
#[derive(Debug)]
pub struct RestartOrder {
    pub old_id: u128,
    pub name: Option<String>,
}

/// The name a restart order carries, as characters.
pub open spec fn order_name(o: RestartOrder) -> Option<Seq<char>> {
    match o.name {
        Some(s) => Some(s@),
        None => None,
    }
}

/// What an incoming data message for an id leads to.
#[derive(Debug, Clone, Copy, PartialEq, Eq, Structural)]
pub enum DataRoute {
    /// The actor is live: hand the data to it.
    Live,
    /// The slot is dormant and wakes on data: reactivate, then hand it over.
    Wake,
    /// The slot is dormant and refuses data.
    Refuse,
    /// No live or dormant actor has this id.
    Unknown,
}

/// How a live actor answered a passivation request.
#[derive(Debug)]
pub enum PassivationReply {
    /// It reached a stop point and handed over its state.
    Captured(Vec<u8>),
    /// It is not at a stop point and keeps running.
    NotAtStopPoint,
    /// It did not answer (wedged or already exiting).
    NoResponse,
}

/// What the store's answer to writing a passivated actor's bytes does: on
/// success the id is dormant with the given wake policy and the result is
/// `Ok`; on failure the dormant slots are as before and the result is the
/// `Store` error carrying the store's error and the bytes.
pub open spec fn put_post(
    dormant: Map<u128, WakePolicy>,
    id: u128,
    bytes: Vec<u8>,
    wake: WakePolicy,
    put: Result<(), anyhow::Error>,
    new_dormant: Map<u128, WakePolicy>,
    r: Result<(), PassivateError>,
) -> bool {
    match put {
        Ok(()) => new_dormant == dormant.insert(id, wake) && r is Ok,
        Err(source) => new_dormant == dormant && r == Err::<(), PassivateError>(
            PassivateError::Store { source, bytes },
        ),
    }
}

/// What the store's answer to reading a dormant slot leads to: a failing
/// store gives `Store`, a store without the id `UnknownActor`, and bytes
/// found are handed on if a rehydrator can thaw them, else `NoRehydrator`.
pub open spec fn reactivation_outcome(
    id: u128,
    answer: Result<Option<Vec<u8>>, anyhow::Error>,
    has_rehydrator: bool,
) -> Result<Vec<u8>, ReactivateError> {
    match answer {
        Err(e) => Err(ReactivateError::Store(e)),
        Ok(None) => Err(ReactivateError::UnknownActor(id)),
        Ok(Some(bytes)) => if has_rehydrator {
            Ok(bytes)
        } else {
            Err(ReactivateError::NoRehydrator)
        },
    }
}

/// The result of reading a dormant slot, from the store's answer: see
/// [`reactivation_outcome`].
pub fn reactivation_answer(
    id: u128,
    answer: Result<Option<Vec<u8>>, anyhow::Error>,
    has_rehydrator: bool,
) -> (r: Result<Vec<u8>, ReactivateError>)
    ensures
        r == reactivation_outcome(id, answer, has_rehydrator),
{
    match answer {
        Err(e) => Err(ReactivateError::Store(e)),
        Ok(None) => Err(ReactivateError::UnknownActor(id)),
        Ok(Some(bytes)) => {
            if has_rehydrator {
                Ok(bytes)
            } else {
                Err(ReactivateError::NoRehydrator)
            }
        },
    }
}

/// Where data addressed to `id` goes, given the live and dormant slots and
/// whether the store holds bytes for `id`.
pub open spec fn data_route<L>(
    live: Map<u128, L>,
    dormant: Map<u128, WakePolicy>,
    id: u128,
    stored: bool,
) -> DataRoute {
    if live.contains_key(id) {
        DataRoute::Live
    } else if !dormant.contains_key(id) && !stored {
        DataRoute::Unknown
    } else if dormant.contains_key(id) && dormant[id] == WakePolicy::Refuse {
        DataRoute::Refuse
    } else {
        DataRoute::Wake
    }
}

/// The live slot a domain name points at, if it points at a live one.
pub open spec fn lookup<L>(names: Map<Seq<char>, u128>, live: Map<u128, L>, name: Seq<char>) -> Option<
    L,
> {
    if names.contains_key(name) {
        live.get(names[name])
    } else {
        None
    }
}

/// A strictly typed manager for a group of actors.
pub struct Orchestrator<L> {
    /// The policy for this group of actors.
    strategy: OrchestrationStrategy,
    /// Live slots, by actor id.
    handles: HashMap<u128, L>,
    /// Domain names (say "conn:42") to actor ids.
    domain_map: StringHashMap<u128>,
    /// Actor ids to the domain name they were registered under, so the name
    /// can move to the actor that replaces them.
    reverse_domain_map: HashMap<u128, String>,
    /// Restarts granted so far.
    current_restarts: i32,
    /// Dormant slots and their wake policies. The id persists across
    /// passivation and reactivation.
    dormant: HashMap<u128, WakePolicy>,
}

impl<L> Orchestrator<L> {
    /// The group's strategy.
    pub closed spec fn strategy_view(&self) -> OrchestrationStrategy {
        self.strategy
    }

    /// Live slots by id.
    pub closed spec fn live(&self) -> Map<u128, L> {
        self.handles@
    }

    /// Domain names and the ids they point at.
    pub closed spec fn names(&self) -> Map<Seq<char>, u128> {
        self.domain_map@
    }

    /// Ids and the domain name each was registered under.
    pub closed spec fn owners(&self) -> Map<u128, Seq<char>> {
        self.reverse_domain_map@.map_values(|s: String| s@)
    }

    /// Restarts granted so far.
    pub closed spec fn restarts(&self) -> i32 {
        self.current_restarts
    }

    /// Dormant slots and their wake policies.
    pub closed spec fn dormant_view(&self) -> Map<u128, WakePolicy> {
        self.dormant@
    }

    /// No id is both live and dormant.
    pub open spec fn wf(&self) -> bool {
        forall|id: u128| #[trigger] self.live().contains_key(id) ==> !self.dormant_view().contains_key(id)
    }

    /// A group with the given strategy and no actors.
    pub fn new(strategy: OrchestrationStrategy) -> (r: Self)
        ensures
            r.strategy_view() == strategy,
            r.live() == Map::<u128, L>::empty(),
            r.names() == Map::<Seq<char>, u128>::empty(),
            r.owners() == Map::<u128, Seq<char>>::empty(),
            r.dormant_view() == Map::<u128, WakePolicy>::empty(),
            r.restarts() == 0,
            r.wf(),
    {
        let r = Orchestrator {
            strategy,
            handles: HashMap::new(),
            domain_map: StringHashMap::new(),
            reverse_domain_map: HashMap::new(),
            current_restarts: 0,
            dormant: HashMap::new(),
        };
        assert(r.owners() =~= Map::<u128, Seq<char>>::empty());
        r
    }

    /// The live slots, by actor id.
    pub fn handles(&self) -> (r: &HashMap<u128, L>)
        ensures
            r@ == self.live(),
    {
        &self.handles
    }

    /// Restarts granted so far.
    pub fn current_restarts(&self) -> (r: i32)
        ensures
            r == self.restarts(),
    {
        self.current_restarts
    }

    /// The group's strategy.
    pub fn strategy(&self) -> (r: OrchestrationStrategy)
        ensures
            r == self.strategy_view(),
    {
        self.strategy
    }

    /// Record a freshly spawned actor's slot under its id (a new id, or the
    /// id of a slot coming back from dormancy). A live slot ends any
    /// dormancy under the same id, so no id is ever both.
    pub fn register(&mut self, id: u128, slot: L) -> (r: u128)
        ensures
            r == id,
            final(self).live() == old(self).live().insert(id, slot),
            final(self).names() == old(self).names(),
            final(self).owners() == old(self).owners(),
            final(self).dormant_view() == old(self).dormant_view().remove(id),
            final(self).strategy_view() == old(self).strategy_view(),
            final(self).restarts() == old(self).restarts(),
            old(self).wf() ==> final(self).wf(),
    {
        self.handles.insert(id, slot);
        self.dormant.remove(&id);
        id
    }

    /// Register `id` under a domain name. The name then points at `id`
    /// (whatever it pointed at before), and `id` remembers the name so that
    /// an actor restarted in its place inherits it.
    pub fn name_slot(&mut self, name: String, id: u128)
        ensures
            final(self).names() == old(self).names().insert(name@, id),
            final(self).owners() == old(self).owners().insert(id, name@),
            old(self).wf() ==> final(self).wf(),
            final(self).live() == old(self).live(),
            final(self).dormant_view() == old(self).dormant_view(),
            final(self).strategy_view() == old(self).strategy_view(),
            final(self).restarts() == old(self).restarts(),
    {
        let key = name.clone();
        self.domain_map.insert(key, id);
        self.reverse_domain_map.insert(id, name);
        assert(self.owners() =~= old(self).owners().insert(id, name@));
        assert(self.live() == old(self).live() && self.dormant_view() == old(self).dormant_view());
    }

    /// The live slot of an actor, by id.
    pub fn get_handle(&self, id: u128) -> (r: Option<&L>)
        ensures
            match r {
                Some(h) => self.live().contains_key(id) && *h == self.live()[id],
                None => !self.live().contains_key(id),
            },
    {
        self.handles.get(&id)
    }

    /// The live slot of the actor a domain name points at.
    pub fn get_by_name(&self, name: &str) -> (r: Option<&L>)
        ensures
            match r {
                Some(h) => lookup(self.names(), self.live(), name@) == Some(*h),
                None => lookup(self.names(), self.live(), name@) is None,
            },
    {
        match self.domain_map.get(name) {
            Some(id) => self.handles.get(id),
            None => None,
        }
    }

    /// Handle actors whose tasks have finished: drop their slots and their
    /// name records, and apply the strategy. Under `Restart`, each death is
    /// granted a restart while the limit permits (counted in
    /// `current_restarts`); the caller rebuilds the actor for each order
    /// returned and hands it to [`Self::complete_restart`]. Under
    /// `Escalate`, each death is reported upward in `escalated`, for the
    /// caller (the parent) to act on. Dormant slots have no task, so they
    /// are never reaped here.
    pub fn maintain(&mut self, finished: Vec<u128>) -> (reaping: Reaping)
        ensures
            ({
                let orders = reaping.restarts;
                let r = reap_all(
                    old(self).strategy_view(),
                    (old(self).restarts() as int, old(self).live().dom(), Seq::<u128>::empty()),
                    finished@,
                );
                &&& final(self).restarts() == r.0
                &&& final(self).live() == old(self).live().restrict(r.1)
                &&& final(self).owners() == old(self).owners().remove_keys(
                    old(self).live().dom().difference(r.1),
                )
                &&& orders@.map_values(|o: RestartOrder| o.old_id) == r.2
                &&& forall|j: int|
                    0 <= j < orders@.len() ==> #[trigger] order_name(orders@[j]) == old(
                        self,
                    ).owners().get(orders@[j].old_id)
            }),
            reaping.escalated@ == escalations(old(self).strategy_view(), old(self).live().dom(), finished@),
            old(self).wf() ==> final(self).wf(),
            final(self).names() == old(self).names(),
            final(self).dormant_view() == old(self).dormant_view(),
            final(self).strategy_view() == old(self).strategy_view(),
    {
        let orders = self.reap(finished);
        Reaping { restarts: orders.0, escalated: orders.1 }
    }

    /// The loop of [`Self::maintain`].
    fn reap(&mut self, finished: Vec<u128>) -> (out: (Vec<RestartOrder>, Vec<u128>))
        ensures
            ({
                let r = reap_all(
                    old(self).strategy_view(),
                    (old(self).restarts() as int, old(self).live().dom(), Seq::<u128>::empty()),
                    finished@,
                );
                &&& final(self).restarts() == r.0
                &&& final(self).live() == old(self).live().restrict(r.1)
                &&& final(self).owners() == old(self).owners().remove_keys(
                    old(self).live().dom().difference(r.1),
                )
                &&& out.0@.map_values(|o: RestartOrder| o.old_id) == r.2
            }),
            forall|j: int|
                0 <= j < out.0@.len() ==> #[trigger] order_name(out.0@[j]) == old(self).owners().get(
                    out.0@[j].old_id,
                ),
            out.1@ == escalations(old(self).strategy_view(), old(self).live().dom(), finished@),
            final(self).names() == old(self).names(),
            final(self).dormant_view() == old(self).dormant_view(),
            final(self).strategy_view() == old(self).strategy_view(),
    {
        let ghost acc0 = (old(self).restarts() as int, old(self).live().dom(), Seq::<u128>::empty());
        let ghost strategy = old(self).strategy_view();
        let mut orders: Vec<RestartOrder> = Vec::new();
        let mut escalated: Vec<u128> = Vec::new();
        let mut i: usize = 0;
        assert(finished@.take(0) =~= Seq::<u128>::empty());
        while i < finished.len()
            invariant
                0 <= i <= finished.len(),
                strategy == old(self).strategy_view(),
                self.strategy_view() == strategy,
                ({
                    let r = reap_all(strategy, acc0, finished@.take(i as int));
                    &&& self.restarts() == r.0
                    &&& r.1.subset_of(old(self).live().dom())
                    &&& self.live() == old(self).live().restrict(r.1)
                    &&& self.owners() == old(self).owners().remove_keys(
                        old(self).live().dom().difference(r.1),
                    )
                    &&& orders@.map_values(|o: RestartOrder| o.old_id) == r.2
                }),
                forall|j: int|
                    0 <= j < orders@.len() ==> #[trigger] order_name(orders@[j]) == old(
                        self,
                    ).owners().get(orders@[j].old_id),
                escalated@ == escalations(strategy, old(self).live().dom(), finished@.take(i as int)),
                reap_all(strategy, acc0, finished@.take(i as int)).1 == old(self).live().dom().difference(
                    finished@.take(i as int).to_set(),
                ),
                self.names() == old(self).names(),
                self.dormant_view() == old(self).dormant_view(),
            decreases finished.len() - i,
        {
            let id = finished[i];
            let ghost before = reap_all(strategy, acc0, finished@.take(i as int));
            proof {
                assert(finished@.take(i + 1).drop_last() =~= finished@.take(i as int));
                assert(finished@.take(i + 1).last() == id);
            }
            let ghost old_orders = orders@;
            proof {
                lemma_reap_removes_finished(strategy, acc0, finished@.take(i + 1));
                assert(finished@.take(i as int).contains(id) <==> finished@.take(i as int).to_set().contains(id));
            }
            if self.handles.contains_key(&id) {
                assert(before.1.contains(id));
                self.handles.remove(&id);
                let ghost prev_rev = self.reverse_domain_map@;
                let ghost prev_owners = self.owners();
                let domain_name = self.reverse_domain_map.remove(&id);
                assert(self.reverse_domain_map@ == prev_rev.remove(id));
                assert(self.owners() =~= prev_owners.remove(id));
                assert(prev_owners.contains_key(id) == old(self).owners().contains_key(id));
                assert(prev_owners.contains_key(id) ==> prev_owners[id] == old(self).owners()[id]);
                assert(match domain_name {
                    Some(n) => prev_rev.contains_key(id) && n == prev_rev[id],
                    None => !prev_rev.contains_key(id),
                });
                assert(self.owners() =~= old(self).owners().remove_keys(
                    old(self).live().dom().difference(before.1.remove(id)),
                ));
                assert(self.live() =~= old(self).live().restrict(before.1.remove(id)));
                if self.strategy.strategy_type == OrchestrationType::Restart.code() && (
                self.current_restarts < self.strategy.restart_limit || self.strategy.restart_limit
                    == -1) {
                    if self.current_restarts < i32::MAX {
                        self.current_restarts = self.current_restarts + 1;
                    }
                    let order = RestartOrder { old_id: id, name: domain_name };
                    assert(order_name(order) == old(self).owners().get(id));
                    orders.push(order);
                    assert(orders@.map_values(|o: RestartOrder| o.old_id) =~= old_orders.map_values(
                        |o: RestartOrder| o.old_id,
                    ).push(id));
                }
                if self.strategy.strategy_type == OrchestrationType::Escalate.code() {
                    escalated.push(id);
                }
            } else {
                assert(!before.1.contains(id));
            }
            i = i + 1;
        }
        assert(finished@.take(finished@.len() as int) =~= finished@);
        (orders, escalated)
    }

    /// Install the actor rebuilt for a restart order under its new id (which
    /// is then not dormant); the name the dead actor was registered under
    /// now points at it.
    pub fn complete_restart(&mut self, order: RestartOrder, new_id: u128, slot: L)
        ensures
            final(self).live() == old(self).live().insert(new_id, slot),
            match order_name(order) {
                Some(n) => {
                    &&& final(self).names() == old(self).names().insert(n, new_id)
                    &&& final(self).owners() == old(self).owners().insert(new_id, n)
                },
                None => {
                    &&& final(self).names() == old(self).names()
                    &&& final(self).owners() == old(self).owners()
                },
            },
            final(self).dormant_view() == old(self).dormant_view().remove(new_id),
            final(self).strategy_view() == old(self).strategy_view(),
            final(self).restarts() == old(self).restarts(),
            old(self).wf() ==> final(self).wf(),
    {
        self.handles.insert(new_id, slot);
        self.dormant.remove(&new_id);
        assert(old(self).wf() ==> self.wf()) by {
            if old(self).wf() {
                assert forall|x: u128| #[trigger] self.live().contains_key(x) implies !self.dormant_view().contains_key(x) by {
                    if x != new_id {
                        assert(old(self).live().contains_key(x));
                    }
                }
            }
        }
        match order.name {
            Some(name) => {
                self.name_slot(name, new_id);
            },
            None => {},
        }
    }

    /// Ids of all dormant slots this orchestrator is tracking, each once.
    pub fn dormant_ids(&self) -> (r: Vec<u128>)
        ensures
            r@.to_set() == self.dormant_view().dom(),
            r@.no_duplicates(),
    {
        let ghost keys = vstd::std_specs::hash::spec_keys_iter(&self.dormant).remaining();
        let mut ids: Vec<u128> = Vec::new();
        for k in it: self.dormant.keys()
            invariant
                it.seq() == keys,
                ids@.len() == it.index(),
                it.index() <= keys.len(),
                forall|j: int| 0 <= j < it.index() ==> ids@[j] == *keys[j],
        {
            ids.push(*k);
        }
        proof {
            assert(ids@ =~= keys.map_values(|k: &u128| *k));
            assert(keys.unref() =~= keys.map_values(|k: &u128| *k));
        }
        ids
    }

    /// The live slot a passivation request goes to.
    pub fn passivation_target(&self, id: u128) -> (r: Result<&L, PassivateError>)
        ensures
            match r {
                Ok(h) => self.live().contains_key(id) && *h == self.live()[id],
                Err(e) => !self.live().contains_key(id) && e == PassivateError::UnknownActor(id),
            },
    {
        match self.handles.get(&id) {
            Some(h) => Ok(h),
            None => Err(PassivateError::UnknownActor(id)),
        }
    }

    /// Conclude a passivation from the actor's answer. If it handed over
    /// its state, the slot stops being live and a copy of the bytes goes to
    /// the store, whose answer [`Self::absorb_put`] applies. If it did not,
    /// the actor keeps running and neither the orchestrator nor the store
    /// changes.
    pub fn settle_passivation<St: DormantStore>(
        &mut self,
        id: u128,
        reply: PassivationReply,
        wake: WakePolicy,
        store: &mut St,
    ) -> (r: Result<(), PassivateError>)
        ensures
            final(self).names() == old(self).names(),
            final(self).owners() == old(self).owners(),
            final(self).strategy_view() == old(self).strategy_view(),
            final(self).restarts() == old(self).restarts(),
            old(self).wf() ==> final(self).wf(),
            match reply {
                PassivationReply::NotAtStopPoint => {
                    &&& r == Err::<(), PassivateError>(PassivateError::NotAtStopPoint(id))
                    &&& final(self).live() == old(self).live()
                    &&& final(self).dormant_view() == old(self).dormant_view()
                    &&& *final(store) == *old(store)
                },
                PassivationReply::NoResponse => {
                    &&& r == Err::<(), PassivateError>(PassivateError::NoResponse(id))
                    &&& final(self).live() == old(self).live()
                    &&& final(self).dormant_view() == old(self).dormant_view()
                    &&& *final(store) == *old(store)
                },
                PassivationReply::Captured(bytes) => {
                    &&& final(self).live() == old(self).live().remove(id)
                    &&& exists|put: Result<(), anyhow::Error>|
                        #[trigger] put_post(old(self).dormant_view(), id, bytes, wake, put, final(self).dormant_view(), r)
                    &&& old(store).obeys_store_model() ==> match r {
                        Ok(()) => final(store).stored() == old(store).stored().insert(id, bytes@),
                        Err(_) => final(store).stored() == old(store).stored(),
                    }
                },
            },
            final(store).obeys_store_model() == old(store).obeys_store_model(),
            final(store).infallible() == old(store).infallible(),
            reply is Captured && old(store).infallible() ==> r is Ok,
    {
        match reply {
            PassivationReply::NotAtStopPoint => Err(PassivateError::NotAtStopPoint(id)),
            PassivationReply::NoResponse => Err(PassivateError::NoResponse(id)),
            PassivationReply::Captured(bytes) => {
                self.handles.remove(&id);
                let copy = bytes.clone();
                let put = store.put(id, copy);
                let ghost put_view = put;
                let r = self.absorb_put(id, bytes, wake, put);
                assert(put_post(old(self).dormant_view(), id, bytes, wake, put_view, self.dormant_view(), r));
                assert(old(self).wf() ==> self.wf()) by {
                    if old(self).wf() {
                        assert forall|x: u128| #[trigger] self.live().contains_key(x) implies !self.dormant_view().contains_key(x) by {
                            assert(old(self).live().contains_key(x));
                            assert(x != id);
                        }
                    }
                }
                r
            },
        }
    }

    /// What the store's answer to the write of a passivated actor's bytes
    /// means: on success the slot is dormant under the same id with the
    /// given wake policy (and not live); on failure the store's error comes back with the
    /// bytes, for recovery, and the slot is not dormant.
    pub fn absorb_put(
        &mut self,
        id: u128,
        bytes: Vec<u8>,
        wake: WakePolicy,
        put: Result<(), anyhow::Error>,
    ) -> (r: Result<(), PassivateError>)
        ensures
            put_post(old(self).dormant_view(), id, bytes, wake, put, final(self).dormant_view(), r),
            final(self).live() == (if put is Ok {
                old(self).live().remove(id)
            } else {
                old(self).live()
            }),
            old(self).wf() ==> final(self).wf(),
            final(self).names() == old(self).names(),
            final(self).owners() == old(self).owners(),
            final(self).strategy_view() == old(self).strategy_view(),
            final(self).restarts() == old(self).restarts(),
    {
        match put {
            Err(source) => Err(PassivateError::Store { source, bytes }),
            Ok(()) => {
                self.handles.remove(&id);
                self.dormant.insert(id, wake);
                assert(old(self).wf() ==> self.wf()) by {
                    if old(self).wf() {
                        assert forall|x: u128| #[trigger] self.live().contains_key(x) implies !self.dormant_view().contains_key(x) by {
                            assert(old(self).live().contains_key(x));
                        }
                    }
                }
                Ok(())
            },
        }
    }

    /// The first half of a reactivation: read the bytes a dormant slot was
    /// passivated to, and check that a rehydrator is there to thaw them;
    /// [`reactivation_answer`] says what the store's answer leads to.
    pub fn begin_reactivation<St: DormantStore>(
        &self,
        id: u128,
        store: &St,
        has_rehydrator: bool,
    ) -> (r: Result<Vec<u8>, ReactivateError>)
        ensures
            exists|answer: Result<Option<Vec<u8>>, anyhow::Error>|
                #[trigger] reactivation_outcome(id, answer, has_rehydrator) == r,
            store.obeys_store_model() ==> match r {
                Ok(b) => has_rehydrator && store.stored().get(id) == Some(b@),
                Err(ReactivateError::UnknownActor(x)) => x == id && store.stored().get(id) is None,
                Err(ReactivateError::NoRehydrator) => !has_rehydrator && store.stored().contains_key(id),
                Err(ReactivateError::Store(_)) => true,
                Err(ReactivateError::Rehydrate(_)) => false,
            },
            store.obeys_store_model() && store.infallible() ==> (r is Ok <==> has_rehydrator
                && store.stored().contains_key(id)),
            store.obeys_store_model() && store.infallible() ==> (r == Err::<Vec<u8>, ReactivateError>(
                ReactivateError::UnknownActor(id)) <==> !store.stored().contains_key(id)),
            store.infallible() ==> !(r matches Err(ReactivateError::Store(_))),
    {
        let answer = store.get(id);
        reactivation_answer(id, answer, has_rehydrator)
    }

    /// Install a rehydrated actor under the id it had before dormancy: the
    /// slot is live again, no longer dormant, and its bytes are dropped from
    /// the store (a failure to drop them is ignored). Returns that same id.
    pub fn finish_reactivation<St: DormantStore>(&mut self, id: u128, slot: L, store: &mut St) -> (r:
        u128)
        ensures
            r == id,
            final(self).live() == old(self).live().insert(id, slot),
            final(self).dormant_view() == old(self).dormant_view().remove(id),
            final(self).names() == old(self).names(),
            final(self).owners() == old(self).owners(),
            final(self).strategy_view() == old(self).strategy_view(),
            final(self).restarts() == old(self).restarts(),
            old(self).wf() ==> final(self).wf(),
            final(store).obeys_store_model() == old(store).obeys_store_model(),
            old(store).obeys_store_model() ==> final(store).stored() == old(store).stored().remove(id)
                || final(store).stored() == old(store).stored(),
            final(store).infallible() == old(store).infallible(),
            old(store).obeys_store_model() && old(store).infallible() ==> final(store).stored()
                == old(store).stored().remove(id),
    {
        self.handles.insert(id, slot);
        self.dormant.remove(&id);
        assert(old(self).wf() ==> self.wf()) by {
            if old(self).wf() {
                assert forall|x: u128| #[trigger] self.live().contains_key(x) implies !self.dormant_view().contains_key(x) by {
                    if x != id {
                        assert(old(self).live().contains_key(x));
                    }
                }
            }
        }
        let _ = store.del(id);
        id
    }

    /// Where data addressed to `id` goes, given whether the store holds
    /// bytes for it. A live actor takes it directly. Otherwise the id must
    /// be known as dormant here or to the store, and the slot's wake policy
    /// decides (a slot known only to the store wakes on data).
    pub fn route_with(&self, id: u128, stored: bool) -> (r: DataRoute)
        ensures
            r == data_route(self.live(), self.dormant_view(), id, stored),
    {
        if self.handles.contains_key(&id) {
            return DataRoute::Live;
        }
        let known_dormant = self.dormant.contains_key(&id);
        if !known_dormant && !stored {
            return DataRoute::Unknown;
        }
        let policy = match self.dormant.get(&id) {
            Some(p) => *p,
            None => WakePolicy::WakeOnData,
        };
        match policy {
            WakePolicy::WakeOnData => DataRoute::Wake,
            WakePolicy::Refuse => DataRoute::Refuse,
        }
    }

    /// Where data addressed to `id` goes: asks the store whether it holds
    /// the id (an error counts as not holding it) and routes by
    /// [`Self::route_with`].
    pub fn route_data<St: DormantStore>(&self, id: u128, store: &St) -> (r: DataRoute)
        ensures
            exists|stored: bool|
                r == #[trigger] data_route(self.live(), self.dormant_view(), id, stored) && (
                store.obeys_store_model() && stored ==> store.stored().contains_key(id)),
            (r == DataRoute::Live) == self.live().contains_key(id),
            !self.live().contains_key(id) && self.dormant_view().contains_key(id) ==> r == (
            if self.dormant_view()[id] == WakePolicy::Refuse {
                DataRoute::Refuse
            } else {
                DataRoute::Wake
            }),
            !self.live().contains_key(id) && !self.dormant_view().contains_key(id) ==> (r
                == DataRoute::Wake || r == DataRoute::Unknown),
            store.obeys_store_model() && store.infallible() ==> r == data_route(
                self.live(),
                self.dormant_view(),
                id,
                store.stored().contains_key(id),
            ),
            store.obeys_store_model() && store.infallible() && !self.live().contains_key(id)
                && !self.dormant_view().contains_key(id) ==> (r == DataRoute::Wake
                <==> store.stored().contains_key(id)) && (r == DataRoute::Unknown
                <==> !store.stored().contains_key(id)),
    {
        let stored = match store.get(id) {
            Ok(Some(_)) => true,
            _ => false,
        };
        let r = self.route_with(id, stored);
        assert(r == data_route(self.live(), self.dormant_view(), id, stored) && (
        store.obeys_store_model() && stored ==> store.stored().contains_key(id)));
        r
    }

    /// True if this slot is dormant (passivated, task stopped, id alive).
    pub fn is_dormant(&self, id: u128) -> (r: bool)
        ensures
            r == self.dormant_view().contains_key(id),
    {
        self.dormant.contains_key(&id)
    }
}

} // verus!

verus! {

/// Reaping removes exactly the listed ids from the live set, whatever the
/// strategy.
pub proof fn lemma_reap_removes_finished(
    strategy: OrchestrationStrategy,
    acc: (int, Set<u128>, Seq<u128>),
    ids: Seq<u128>,
)
    ensures
        reap_all(strategy, acc, ids).1 == acc.1.difference(ids.to_set()),
    decreases ids.len(),
{
    if ids.len() == 0 {
        assert(ids.to_set() =~= Set::<u128>::empty());
        assert(acc.1.difference(ids.to_set()) =~= acc.1);
    } else {
        lemma_reap_removes_finished(strategy, acc, ids.drop_last());
        let prev = ids.drop_last();
        assert(ids =~= prev.push(ids.last()));
        assert(ids.to_set() =~= prev.to_set().insert(ids.last())) by {
            vstd::seq_lib::lemma_seq_contains_after_push(prev, ids.last(), ids.last());
            assert forall|x: u128| ids.to_set().contains(x) <==> prev.to_set().insert(ids.last()).contains(x) by {
                if ids.contains(x) {
                    let j = choose|j: int| 0 <= j < ids.len() && ids[j] == x;
                    if j < ids.len() - 1 {
                        assert(prev[j] == x);
                    }
                }
                if prev.contains(x) {
                    let j = choose|j: int| 0 <= j < prev.len() && prev[j] == x;
                    assert(ids[j] == x);
                }
                if x == ids.last() {
                    assert(ids[ids.len() - 1] == x);
                }
            }
        }
        assert(reap_all(strategy, acc, ids).1 =~= acc.1.difference(ids.to_set()));
    }
}

/// Restarts only ever go to ids that were live and are reaped.
pub proof fn lemma_reap_restarts_only_reaped(
    strategy: OrchestrationStrategy,
    acc: (int, Set<u128>, Seq<u128>),
    ids: Seq<u128>,
    x: u128,
)
    requires
        reap_all(strategy, acc, ids).2.contains(x),
    ensures
        acc.2.contains(x) || (acc.1.contains(x) && !reap_all(strategy, acc, ids).1.contains(x)),
    decreases ids.len(),
{
    if ids.len() > 0 {
        let prev = reap_all(strategy, acc, ids.drop_last());
        let r = reap_all(strategy, acc, ids);
        if prev.2.contains(x) {
            lemma_reap_restarts_only_reaped(strategy, acc, ids.drop_last(), x);
            lemma_reap_live_shrinks(strategy, acc, ids);
        } else {
            let j = choose|j: int| 0 <= j < r.2.len() && r.2[j] == x;
            if j < prev.2.len() {
                assert(prev.2[j] == x);
            }
            lemma_reap_live_shrinks(strategy, acc, ids.drop_last());
        }
    }
}

/// The live set only shrinks, and the restarted list only grows.
pub proof fn lemma_reap_live_shrinks(
    strategy: OrchestrationStrategy,
    acc: (int, Set<u128>, Seq<u128>),
    ids: Seq<u128>,
)
    ensures
        reap_all(strategy, acc, ids).1.subset_of(acc.1),
        acc.2.is_prefix_of(reap_all(strategy, acc, ids).2),
    decreases ids.len(),
{
    if ids.len() > 0 {
        lemma_reap_live_shrinks(strategy, acc, ids.drop_last());
        let prev = reap_all(strategy, acc, ids.drop_last());
        let r = reap_all(strategy, acc, ids);
        assert(prev.2.is_prefix_of(r.2)) by {
            assert(r.2 =~= prev.2 || r.2 =~= prev.2.push(ids.last()));
        }
        assert(acc.2.is_prefix_of(r.2)) by {
            assert(acc.2 =~= r.2.subrange(0, acc.2.len() as int));
        }
    }
}

/// Under any type but `Restart` (one-shot, escalate) nothing is ever
/// restarted and the restart counter does not move.
pub proof fn lemma_non_restart_strategy_never_restarts(
    strategy: OrchestrationStrategy,
    acc: (int, Set<u128>, Seq<u128>),
    ids: Seq<u128>,
)
    requires
        strategy.strategy_type != orchestration_type_code(OrchestrationType::Restart),
    ensures
        reap_all(strategy, acc, ids).0 == acc.0,
        reap_all(strategy, acc, ids).2 == acc.2,
    decreases ids.len(),
{
    if ids.len() > 0 {
        lemma_non_restart_strategy_never_restarts(strategy, acc, ids.drop_last());
    }
}

/// With a restart limit `n >= 0`, the counter never passes `n`, and every
/// restart granted counts exactly one: over any sequence of deaths, at most
/// `n` restarts are granted in all.
pub proof fn lemma_restart_limit_respected(
    strategy: OrchestrationStrategy,
    acc: (int, Set<u128>, Seq<u128>),
    ids: Seq<u128>,
)
    requires
        0 <= acc.0 <= strategy.restart_limit,
    ensures
        acc.0 <= reap_all(strategy, acc, ids).0 <= strategy.restart_limit,
        reap_all(strategy, acc, ids).2.len() - acc.2.len() == reap_all(strategy, acc, ids).0
            - acc.0,
    decreases ids.len(),
{
    if ids.len() > 0 {
        lemma_restart_limit_respected(strategy, acc, ids.drop_last());
    }
}

/// Without a limit (`restart()`), every death is restarted.
pub proof fn lemma_unlimited_restarts_every_death(
    strategy: OrchestrationStrategy,
    acc: (int, Set<u128>, Seq<u128>),
    ids: Seq<u128>,
    x: u128,
)
    requires
        strategy.strategy_type == orchestration_type_code(OrchestrationType::Restart),
        strategy.restart_limit == -1,
        acc.1.contains(x),
        !reap_all(strategy, acc, ids).1.contains(x),
    ensures
        reap_all(strategy, acc, ids).2.contains(x),
    decreases ids.len(),
{
    if ids.len() > 0 {
        let prev = reap_all(strategy, acc, ids.drop_last());
        let r = reap_all(strategy, acc, ids);
        lemma_reap_live_shrinks(strategy, acc, ids);
        if !prev.1.contains(x) {
            lemma_unlimited_restarts_every_death(strategy, acc, ids.drop_last(), x);
            let j = choose|j: int| 0 <= j < prev.2.len() && prev.2[j] == x;
            assert(r.2[j] == x);
        } else {
            assert(ids.last() == x);
            assert(r.2[r.2.len() - 1] == x);
        }
    }
}

/// The state thawed is the state passivated, under the same id. Take a
/// well-formed group `o0` with `id` live and a store `s0` that keeps the
/// store model. `settle_passivation` captured `bytes` and succeeded (giving
/// `o1`, and `s1` as its contract says of the store); `begin_reactivation`
/// then read `thawed` from `s1` (as its contract says); and
/// `finish_reactivation` installed `slot` (giving `o2`). Then the thawed
/// bytes are the passivated ones, the id was dormant and not live in
/// between, and afterwards it is live again with the same live and dormant
/// ids as at the start.
pub proof fn lemma_dormancy_round_trip<L, St: DormantStore>(
    o0: Orchestrator<L>,
    o1: Orchestrator<L>,
    o2: Orchestrator<L>,
    s0: St,
    s1: St,
    id: u128,
    wake: WakePolicy,
    bytes: Vec<u8>,
    thawed: Vec<u8>,
    slot: L,
)
    requires
        o0.wf(),
        o0.live().contains_key(id),
        s0.obeys_store_model(),
        // settle_passivation(id, Captured(bytes), wake, s0) gave Ok(()):
        o1.live() == o0.live().remove(id),
        put_post(
            o0.dormant_view(),
            id,
            bytes,
            wake,
            Ok::<(), anyhow::Error>(()),
            o1.dormant_view(),
            Ok::<(), PassivateError>(()),
        ),
        s1.obeys_store_model() == s0.obeys_store_model(),
        s1.stored() == s0.stored().insert(id, bytes@),
        // begin_reactivation(id, s1, true) gave Ok(thawed):
        s1.obeys_store_model() ==> s1.stored().get(id) == Some(thawed@),
        // finish_reactivation(id, slot, s1):
        o2.live() == o1.live().insert(id, slot),
        o2.dormant_view() == o1.dormant_view().remove(id),
    ensures
        thawed@ == bytes@,
        !o1.live().contains_key(id),
        o1.dormant_view().contains_key(id),
        o1.dormant_view()[id] == wake,
        o1.wf(),
        o2.live().contains_key(id),
        o2.live()[id] == slot,
        !o2.dormant_view().contains_key(id),
        o2.live().dom() == o0.live().dom(),
        o2.dormant_view() == o0.dormant_view(),
        o2.wf(),
{
    assert(o2.live().dom() =~= o0.live().dom());
    assert(o2.dormant_view() =~= o0.dormant_view());
}

/// In a well-formed group a dormant slot has no live slot, and a live slot
/// is not dormant: `is_dormant(id)` and `get_handle(id)` never both answer
/// yes.
pub proof fn lemma_dormant_slots_are_not_live<L>(o: Orchestrator<L>, id: u128)
    requires
        o.wf(),
    ensures
        o.dormant_view().contains_key(id) ==> !o.live().contains_key(id),
        o.live().contains_key(id) ==> !o.dormant_view().contains_key(id),
{
}

/// Bytes passivated into a store that keeps the model and never fails
/// bring the slot back from any orchestrator that shares the store: once
/// `settle_passivation` has written `bytes` (whatever they are, empty
/// ones too) under `id`, data for `id` sent through a group `o` where the
/// id is neither live nor dormant routes to `Wake`, as `route_data`'s
/// contract gives it over the store.
pub proof fn lemma_passivated_bytes_wake_elsewhere<L, St: DormantStore>(
    o: Orchestrator<L>,
    s0: St,
    s1: St,
    id: u128,
    bytes: Seq<u8>,
)
    requires
        s0.obeys_store_model(),
        s1.obeys_store_model(),
        s1.infallible(),
        s1.stored() == s0.stored().insert(id, bytes),
        !o.live().contains_key(id),
        !o.dormant_view().contains_key(id),
    ensures
        data_route(o.live(), o.dormant_view(), id, s1.stored().contains_key(id)) == DataRoute::Wake,
{
}

/// Reactivation forgets the bytes: after `finish_reactivation` (giving
/// `o1` and `s1` from `o0` and `s0`) on a store that keeps the model and
/// never fails, the store no longer holds `id`, whether or not `o0` knew
/// the slot as dormant. So once the thawed actor has left the live set
/// again (giving `o2`), data for `id` is reported unknown rather than
/// waking the old state.
pub proof fn lemma_reactivation_forgets_bytes<L, St: DormantStore>(
    o0: Orchestrator<L>,
    o1: Orchestrator<L>,
    o2: Orchestrator<L>,
    s0: St,
    s1: St,
    id: u128,
    slot: L,
)
    requires
        s0.obeys_store_model(),
        s0.infallible(),
        // finish_reactivation(id, slot, s0):
        s1.stored() == s0.stored().remove(id),
        o1.live() == o0.live().insert(id, slot),
        o1.dormant_view() == o0.dormant_view().remove(id),
        // the thawed actor finished and was reaped:
        o2.live() == o1.live().remove(id),
        o2.dormant_view() == o1.dormant_view(),
    ensures
        !s1.stored().contains_key(id),
        s1.stored().remove(id) == s0.stored().remove(id),
        data_route(o2.live(), o2.dormant_view(), id, s1.stored().contains_key(id)) == DataRoute::Unknown,
{
}

/// After `name_slot(name, id)` (which gives `o1` from `o0`), looking the
/// name up finds `id`'s live slot, if it has one; other names are looked
/// up as before.
pub proof fn lemma_lookup_after_naming<L>(
    o0: Orchestrator<L>,
    o1: Orchestrator<L>,
    name: Seq<char>,
    other: Seq<char>,
    id: u128,
)
    requires
        o1.names() == o0.names().insert(name, id),
        o1.owners() == o0.owners().insert(id, name),
        o1.live() == o0.live(),
        other != name,
    ensures
        lookup(o1.names(), o1.live(), name) == o0.live().get(id),
        lookup(o1.names(), o1.live(), other) == lookup(o0.names(), o0.live(), other),
        o1.owners().get(id) == Some(name),
{
}

/// A restarted actor inherits the name of the actor it replaces: if
/// `maintain` (from `o0`) handed back `order` for a dead actor registered
/// under `name`, then once `complete_restart(order, new_id, slot)` has
/// installed the replacement (giving `o2` from `o1`), the name finds the
/// new slot and the new id remembers the name.
pub proof fn lemma_restart_keeps_name<L>(
    o0: Orchestrator<L>,
    o1: Orchestrator<L>,
    o2: Orchestrator<L>,
    order: RestartOrder,
    new_id: u128,
    slot: L,
    name: Seq<char>,
)
    requires
        o0.owners().get(order.old_id) == Some(name),
        order_name(order) == o0.owners().get(order.old_id),
        o2.live() == o1.live().insert(new_id, slot),
        o2.names() == o1.names().insert(name, new_id),
        o2.owners() == o1.owners().insert(new_id, name),
    ensures
        lookup(o2.names(), o2.live(), name) == Some(slot),
        o2.owners().get(new_id) == Some(name),
        order_name(order) == Some(name),
{
}

} // verus!

verus! {

/// Under `Escalate`, every live actor that dies is reported upward; under
/// any other type, no death is.
pub proof fn lemma_escalate_reports_every_death(
    strategy: OrchestrationStrategy,
    live: Set<u128>,
    ids: Seq<u128>,
    x: u128,
)
    ensures
        strategy.strategy_type == orchestration_type_code(OrchestrationType::Escalate)
            && live.contains(x) && ids.contains(x) ==> escalations(strategy, live, ids).contains(x),
        strategy.strategy_type != orchestration_type_code(OrchestrationType::Escalate)
            ==> escalations(strategy, live, ids).len() == 0,
        escalations(strategy, live, ids).contains(x) ==> live.contains(x) && ids.contains(x),
    decreases ids.len(),
{
    if ids.len() > 0 {
        let prev_ids = ids.drop_last();
        lemma_escalate_reports_every_death(strategy, live, prev_ids, x);
        let prev = escalations(strategy, live, prev_ids);
        let cur = escalations(strategy, live, ids);
        assert(ids =~= prev_ids.push(ids.last()));
        if ids.contains(x) && !prev_ids.contains(x) {
            let j = choose|j: int| 0 <= j < ids.len() && ids[j] == x;
            if j < ids.len() - 1 {
                assert(prev_ids[j] == x);
            }
            assert(ids.last() == x);
            if strategy.strategy_type == orchestration_type_code(OrchestrationType::Escalate)
                && live.contains(x) {
                assert(cur[cur.len() - 1] == x);
            }
        }
        if prev_ids.contains(x) {
            let j = choose|j: int| 0 <= j < prev_ids.len() && prev_ids[j] == x;
            assert(ids[j] == x);
        }
        if cur.contains(x) {
            let j = choose|j: int| 0 <= j < cur.len() && cur[j] == x;
            if j < prev.len() {
                assert(prev[j] == x);
            } else {
                assert(ids[ids.len() - 1] == x);
            }
        }
        if prev.contains(x) {
            let j = choose|j: int| 0 <= j < prev.len() && prev[j] == x;
            assert(cur[j] == x);
        }
    }
}

} // verus!

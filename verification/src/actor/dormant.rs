//! Dormancy: passivate a live actor's state to bytes and later reactivate
//! it under the same id. Dormancy is a lifecycle state on a *slot*, not
//! ownership and not destruction.
//!
//! Storage is a hook, not a feature: the orchestrator owns the transition,
//! never the persistence policy. Consumers plug a durable [`DormantStore`]
//! in; the default keeps bytes in memory.

use crate::ipc::PlatformSendSync;
use std::collections::HashMap;
use vstd::prelude::*;

verus! {

broadcast use vstd::std_specs::hash::group_hash_axioms;

/// Where passivated actor bytes live while a slot is dormant.
///
/// A store may declare that it keeps the store model (`obeys_store_model`):
/// it holds bytes by id (`stored`); a write that succeeds keeps the bytes
/// under the id, a read gives back what is kept, a delete that succeeds
/// forgets it, and an operation that fails leaves the store as it was. A
/// store may also declare that none of its operations fails (`infallible`).
/// A store that declares neither (the default) promises nothing. What a
/// store declares does not change as it is used.
pub trait DormantStore: PlatformSendSync {
    /// Whether this store keeps the store model.
    open spec fn obeys_store_model(&self) -> bool {
        false
    }

    /// Whether every write, read and delete of this store succeeds.
    open spec fn infallible(&self) -> bool {
        false
    }

    /// What the store holds, by id (meaningful where the model is kept).
    open spec fn stored(&self) -> Map<u128, Seq<u8>> {
        Map::empty()
    }

    /// Keep `bytes` under `id`, replacing what was there.
    fn put(&mut self, id: u128, bytes: Vec<u8>) -> (r: Result<(), anyhow::Error>)
        ensures
            final(self).obeys_store_model() == old(self).obeys_store_model(),
            final(self).infallible() == old(self).infallible(),
            old(self).infallible() ==> r is Ok,
            old(self).obeys_store_model() ==> match r {
                Ok(()) => final(self).stored() == old(self).stored().insert(id, bytes@),
                Err(_) => final(self).stored() == old(self).stored(),
            },
    ;

    /// The bytes kept under `id`, if any.
    fn get(&self, id: u128) -> (r: Result<Option<Vec<u8>>, anyhow::Error>)
        ensures
            self.infallible() ==> r is Ok,
            self.obeys_store_model() ==> match r {
                Ok(Some(b)) => self.stored().get(id) == Some(b@),
                Ok(None) => self.stored().get(id) is None,
                Err(_) => true,
            },
    ;

    /// Forget what is kept under `id`.
    fn del(&mut self, id: u128) -> (r: Result<(), anyhow::Error>)
        ensures
            final(self).obeys_store_model() == old(self).obeys_store_model(),
            final(self).infallible() == old(self).infallible(),
            old(self).infallible() ==> r is Ok,
            old(self).obeys_store_model() ==> match r {
                Ok(()) => final(self).stored() == old(self).stored().remove(id),
                Err(_) => final(self).stored() == old(self).stored(),
            },
    ;
}

/// In-memory default store. Bytes do not survive the process.
pub struct InMemoryDormantStore {
    slots: HashMap<u128, Vec<u8>>,
}

impl View for InMemoryDormantStore {
    type V = Map<u128, Seq<u8>>;

    closed spec fn view(&self) -> Map<u128, Seq<u8>> {
        self.slots@.map_values(|v: Vec<u8>| v@)
    }
}

impl InMemoryDormantStore {
    /// An empty store.
    pub fn new() -> (r: Self)
        ensures
            r@ == Map::<u128, Seq<u8>>::empty(),
    {
        let r = InMemoryDormantStore { slots: HashMap::new() };
        assert(r@ =~= Map::<u128, Seq<u8>>::empty());
        r
    }
}

impl Default for InMemoryDormantStore {
    fn default() -> (r: Self)
        ensures
            r@ == Map::<u128, Seq<u8>>::empty(),
    {
        InMemoryDormantStore::new()
    }
}

impl DormantStore for InMemoryDormantStore {
    open spec fn obeys_store_model(&self) -> bool {
        true
    }

    open spec fn stored(&self) -> Map<u128, Seq<u8>> {
        self@
    }

    open spec fn infallible(&self) -> bool {
        true
    }

    /// Keep `bytes` under `id`, replacing what was there.
    fn put(&mut self, id: u128, bytes: Vec<u8>) -> (r: Result<(), anyhow::Error>)
        ensures
            r is Ok,
            final(self)@ == old(self)@.insert(id, bytes@),
    {
        let ghost b = bytes@;
        self.slots.insert(id, bytes);
        assert(self@ =~= old(self)@.insert(id, b));
        Ok(())
    }

    /// A copy of the bytes kept under `id`, if any.
    fn get(&self, id: u128) -> (r: Result<Option<Vec<u8>>, anyhow::Error>)
        ensures
            match r {
                Ok(Some(b)) => self@.get(id) == Some(b@),
                Ok(None) => self@.get(id) is None,
                Err(_) => false,
            },
    {
        match self.slots.get(&id) {
            Some(b) => {
                let c = b.clone();
                assert(c@ =~= b@);
                Ok(Some(c))
            },
            None => Ok(None),
        }
    }

    /// Forget what is kept under `id`.
    fn del(&mut self, id: u128) -> (r: Result<(), anyhow::Error>)
        ensures
            r is Ok,
            final(self)@ == old(self)@.remove(id),
    {
        self.slots.remove(&id);
        assert(self@ =~= old(self)@.remove(id));
        Ok(())
    }
}

/// What `send_data` does when it targets a dormant slot.
#[derive(Debug, Clone, Copy, PartialEq, Eq, Structural)]
pub enum WakePolicy {
    /// Rehydrate the actor, then deliver the data.
    WakeOnData,
    /// Leave the slot dormant and return a typed refusal. Never silent.
    Refuse,
}

impl Default for WakePolicy {
    fn default() -> (r: Self)
        ensures
            r == WakePolicy::WakeOnData,
    {
        WakePolicy::WakeOnData
    }
}

/// Why a passivation did not happen.
#[derive(Debug)]
pub enum PassivateError {
    /// No live actor with this id.
    UnknownActor(u128),
    /// The actor is not at a stop point; it keeps running.
    NotAtStopPoint(u128),
    /// The actor did not answer the passivation request (wedged or exiting).
    NoResponse(u128),
    /// The store rejected the bytes. The actor has already stopped by this
    /// point, so the bytes are handed back to the caller for recovery.
    Store { source: anyhow::Error, bytes: Vec<u8> },
}

/// Why a reactivation did not happen.
#[derive(Debug)]
pub enum ReactivateError {
    /// Neither the dormant registry nor the store knows this id.
    UnknownActor(u128),
    /// No rehydrator registered.
    NoRehydrator,
    /// The rehydrator failed to build a state from the stored bytes.
    Rehydrate(anyhow::Error),
    /// The store failed.
    Store(anyhow::Error),
}

/// Why data could not be handed to an actor.
#[derive(Debug)]
pub enum SendDataError {
    /// No live or dormant actor with this id.
    UnknownActor(u128),
    /// The slot is dormant and its wake policy is [`WakePolicy::Refuse`].
    DormantRefused(u128),
    /// Waking the slot failed.
    Reactivate(ReactivateError),
    /// The actor's data channel is closed (task gone).
    ChannelClosed(u128),
}

impl From<ReactivateError> for SendDataError {
    fn from(e: ReactivateError) -> (r: Self) {
        SendDataError::Reactivate(e)
    }
}

impl vstd::std_specs::convert::FromSpecImpl<ReactivateError> for SendDataError {
    open spec fn obeys_from_spec() -> bool {
        true
    }

    open spec fn from_spec(e: ReactivateError) -> SendDataError {
        SendDataError::Reactivate(e)
    }
}

/// Bytes written to the in-memory store are what a later read gives back,
/// until the id is deleted; writing or deleting one id leaves every other
/// id as it was. `after_put` is the store after `put(id, bytes)` on
/// `before`, `after_del` after a following `del(id)`, as their contracts
/// say; `get` reads a store's `@.get(id)`.
pub proof fn lemma_store_read_after_write(
    before: InMemoryDormantStore,
    after_put: InMemoryDormantStore,
    after_del: InMemoryDormantStore,
    id: u128,
    other: u128,
    bytes: Seq<u8>,
)
    requires
        after_put@ == before@.insert(id, bytes),
        after_del@ == after_put@.remove(id),
        other != id,
    ensures
        after_put@.get(id) == Some(bytes),
        after_del@.get(id) is None,
        after_put@.get(other) == before@.get(other),
        after_del@.get(other) == before@.get(other),
{
}

} // verus!

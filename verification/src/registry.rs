//! Who may write into which context.
//!
//! A context is registered once, by the caller who thereby becomes its owner.
//! The owner never changes, and every operation that changes the ledger asks
//! the registry first.

use crate::types::{Address, ContextCreated, ContextId, Error, Timestamp};
use std::collections::HashMap;
use vstd::prelude::*;

verus! {

broadcast use vstd::std_specs::hash::group_hash_axioms;

/// What the ownership guard answers for `caller` on `context`, given the
/// registered owners.
pub open spec fn owner_check(owners: Map<ContextId, Address>, context: ContextId, caller: Address)
    -> Result<(), Error> {
    if !owners.contains_key(context) {
        Err(Error::ContextNotFound)
    } else if owners[context] != caller {
        Err(Error::NotOwner)
    } else {
        Ok(())
    }
}

/// Whether `caller` is the registered owner of `context`.
pub open spec fn owns(owners: Map<ContextId, Address>, context: ContextId, caller: Address) -> bool {
    owners.contains_key(context) && owners[context] == caller
}

/// The registry of contexts and their owners.
pub struct ContextRegistry {
    context_owners: HashMap<ContextId, Address>,
}

impl View for ContextRegistry {
    type V = Map<ContextId, Address>;

    closed spec fn view(&self) -> Map<ContextId, Address> {
        self.context_owners@
    }
}

impl ContextRegistry {
    /// A registry without contexts.
    pub fn new() -> (registry: Self)
        ensures
            registry@ == Map::<ContextId, Address>::empty(),
    {
        ContextRegistry { context_owners: HashMap::new() }
    }

    /// Registers `context_id` with `caller` as its owner, unless it is
    /// registered already. On success the notification to publish is returned.
    pub fn register_context(&mut self, context_id: ContextId, caller: Address, time: Timestamp) -> (outcome:
        Result<ContextCreated, Error>)
        ensures
            old(self)@.contains_key(context_id) ==> outcome == Err::<ContextCreated, Error>(
                Error::ContextAlreadyExists,
            ) && final(self)@ == old(self)@,
            !old(self)@.contains_key(context_id) ==> outcome == Ok::<ContextCreated, Error>(
                ContextCreated { context: context_id, owner: caller, time },
            ) && final(self)@ == old(self)@.insert(context_id, caller),
    {
        if self.context_owners.contains_key(&context_id) {
            return Err(Error::ContextAlreadyExists);
        }
        self.context_owners.insert(context_id, caller);
        Ok(ContextCreated { context: context_id, owner: caller, time })
    }

    /// The owner of `context_id`, if it is registered.
    pub fn get_owner(&self, context_id: ContextId) -> (owner: Option<Address>)
        ensures
            owner == self@.get(context_id),
    {
        match self.context_owners.get(&context_id) {
            Some(owner) => Some(*owner),
            None => None,
        }
    }

    /// Whether `address` is the registered owner of `context_id`.
    pub fn is_owner(&self, context_id: ContextId, address: Address) -> (yes: bool)
        ensures
            yes == owns(self@, context_id, address),
    {
        match self.context_owners.get(&context_id) {
            Some(owner) => *owner == address,
            None => false,
        }
    }

    /// The ownership guard: succeeds exactly when `caller` owns `context_id`.
    pub fn check_owner(&self, context_id: ContextId, caller: Address) -> (outcome: Result<(), Error>)
        ensures
            outcome == owner_check(self@, context_id, caller),
    {
        match self.context_owners.get(&context_id) {
            Some(owner) => if *owner != caller {
                Err(Error::NotOwner)
            } else {
                Ok(())
            },
            None => Err(Error::ContextNotFound),
        }
    }
}

} // verus!

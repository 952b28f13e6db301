//! Disputes raised within a context and the judgments on them.
//!
//! Only the owner of a context opens a dispute in it or passes judgment. A
//! dispute is opened once under its id, and judged once.

use crate::pair_map::PairMap;
use crate::registry::{owns, ContextRegistry};
use crate::types::{Address, ContextId, EntityId};
use vstd::prelude::*;

verus! {

/// Where a dispute stands.
#[derive(Clone, Copy, Debug, PartialEq, Eq, Structural)]
pub enum DisputeStatus {
    /// Raised and not judged yet.
    Open,
    /// Judged in favour of the claimant.
    Resolved,
    /// Judged against the claimant.
    Dismissed,
}

impl Default for DisputeStatus {
    fn default() -> (status: Self)
        ensures
            status == DisputeStatus::Open,
    {
        DisputeStatus::Open
    }
}

/// A dispute and, once it is judged, its resolution.
#[derive(Debug, Default, PartialEq, Eq)]
pub struct Dispute {
    /// The id of the dispute within its context.
    pub id: EntityId,
    /// Who raised the dispute.
    pub claimant: Address,
    /// The entity that the dispute is against.
    pub against: EntityId,
    /// Where the details of the claim are found.
    pub claim_uri: String,
    /// Where the dispute stands.
    pub status: DisputeStatus,
    /// Where the details of the judgment are found, once it is passed.
    pub resolution_uri: Option<String>,
}

impl Clone for Dispute {
    fn clone(&self) -> (copy: Self)
        ensures
            copy == *self,
    {
        Dispute {
            id: self.id,
            claimant: self.claimant,
            against: self.against,
            claim_uri: self.claim_uri.clone(),
            status: self.status,
            resolution_uri: match &self.resolution_uri {
                Some(uri) => Some(uri.clone()),
                None => None,
            },
        }
    }
}

/// The dispute as it is when it is opened.
pub open spec fn opened(
    dispute_id: EntityId,
    claimant: Address,
    against: EntityId,
    claim_uri: String,
) -> Dispute {
    Dispute {
        id: dispute_id,
        claimant,
        against,
        claim_uri,
        status: DisputeStatus::Open,
        resolution_uri: None,
    }
}

/// The dispute after judgment was passed on it.
pub open spec fn judged(dispute: Dispute, status: DisputeStatus, resolution_uri: String) -> Dispute {
    Dispute { status, resolution_uri: Some(resolution_uri), ..dispute }
}

/// The disputes of all contexts.
pub struct Disputes {
    disputes: PairMap<Dispute>,
}

impl View for Disputes {
    type V = Map<(ContextId, EntityId), Dispute>;

    closed spec fn view(&self) -> Map<(ContextId, EntityId), Dispute> {
        Map::new(
            |k: (ContextId, EntityId)| self.disputes@.contains_key((k.0 as u128, k.1 as u128)),
            |k: (ContextId, EntityId)| self.disputes@[(k.0 as u128, k.1 as u128)],
        )
    }
}

impl Disputes {
    /// No disputes.
    pub fn new() -> (disputes: Self)
        ensures
            disputes@ == Map::<(ContextId, EntityId), Dispute>::empty(),
    {
        let disputes = Disputes { disputes: PairMap::new() };
        assert(disputes@ =~= Map::<(ContextId, EntityId), Dispute>::empty());
        disputes
    }

    /// Whether `caller` may open a dispute under `dispute_id` in
    /// `context_id`: the caller owns the context and the id is free.
    pub fn can_open(
        &self,
        registry: &ContextRegistry,
        context_id: ContextId,
        dispute_id: EntityId,
        caller: Address,
    ) -> (yes: bool)
        ensures
            yes == (owns(registry@, context_id, caller) && !self@.contains_key(
                (context_id, dispute_id),
            )),
    {
        registry.is_owner(context_id, caller) && !self.disputes.contains_key(
            context_id as u128,
            dispute_id as u128,
        )
    }

    /// Whether `caller` may pass judgment on the dispute `dispute_id` of
    /// `context_id`: the caller owns the context and the dispute is open.
    pub fn can_judge(
        &self,
        registry: &ContextRegistry,
        context_id: ContextId,
        dispute_id: EntityId,
        caller: Address,
    ) -> (yes: bool)
        ensures
            yes == (owns(registry@, context_id, caller) && self@.contains_key(
                (context_id, dispute_id),
            ) && self@[(context_id, dispute_id)].status == DisputeStatus::Open),
    {
        if !registry.is_owner(context_id, caller) {
            return false;
        }
        match self.disputes.get(context_id as u128, dispute_id as u128) {
            Some(dispute) => dispute.status == DisputeStatus::Open,
            None => false,
        }
    }

    /// Opens a dispute in `context_id` on behalf of `caller`, who must own
    /// the context according to `registry`. The id must be free.
    pub fn open_dispute(
        &mut self,
        registry: &ContextRegistry,
        context_id: ContextId,
        dispute_id: EntityId,
        claimant: Address,
        against: EntityId,
        claim_uri: String,
        caller: Address,
    )
        requires
            owns(registry@, context_id, caller),
            !old(self)@.contains_key((context_id, dispute_id)),
        ensures
            final(self)@ == old(self)@.insert(
                (context_id, dispute_id),
                opened(dispute_id, claimant, against, claim_uri),
            ),
    {
        let dispute = Dispute {
            id: dispute_id,
            claimant,
            against,
            claim_uri,
            status: DisputeStatus::Open,
            resolution_uri: None,
        };
        self.disputes.insert(context_id as u128, dispute_id as u128, dispute);
        assert(self@ =~= old(self)@.insert(
            (context_id, dispute_id),
            opened(dispute_id, claimant, against, claim_uri),
        ));
    }

    /// Passes judgment on an open dispute on behalf of `caller`, who must own
    /// the context according to `registry`.
    pub fn provide_judgment(
        &mut self,
        registry: &ContextRegistry,
        context_id: ContextId,
        dispute_id: EntityId,
        status: DisputeStatus,
        resolution_uri: String,
        caller: Address,
    )
        requires
            owns(registry@, context_id, caller),
            old(self)@.contains_key((context_id, dispute_id)),
            old(self)@[(context_id, dispute_id)].status == DisputeStatus::Open,
        ensures
            final(self)@ == old(self)@.insert(
                (context_id, dispute_id),
                judged(old(self)@[(context_id, dispute_id)], status, resolution_uri),
            ),
    {
        let taken = self.disputes.remove(context_id as u128, dispute_id as u128);
        let mut dispute = taken.unwrap();
        dispute.status = status;
        dispute.resolution_uri = Some(resolution_uri);
        self.disputes.insert(context_id as u128, dispute_id as u128, dispute);
        assert(self@ =~= old(self)@.insert(
            (context_id, dispute_id),
            judged(old(self)@[(context_id, dispute_id)], status, resolution_uri),
        ));
    }

    /// The dispute `dispute_id` of `context_id`, if there is one.
    pub fn get_dispute(&self, context_id: ContextId, dispute_id: EntityId) -> (found: Option<Dispute>)
        ensures
            found == self@.get((context_id, dispute_id)),
    {
        match self.disputes.get(context_id as u128, dispute_id as u128) {
            Some(dispute) => Some(dispute.clone()),
            None => None,
        }
    }
}

} // verus!

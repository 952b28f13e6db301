//! Identifiers, records, errors and notifications shared by all components.

use vstd::prelude::*;

verus! {

/// Identifies a ratable subject within a context.
pub type EntityId = u8;

/// Tags what kind of subject an entity is.
pub type EntityType = u8;

/// Identifies an isolated reputation namespace.
pub type ContextId = u64;

/// Identifies the person who gives a rating.
pub type Person = u8;

/// Identifies the purchase or interaction that a group of ratings is about.
pub type TransactionId = u64;

/// An aggregate score on the rating scale.
pub type Score = u8;

/// A point in time as the host reports it.
pub type Timestamp = u64;

/// The entity id of a rating that is about no particular entity.
pub const NO_ENTITY: u8 = 0;

/// The score reported for an entity whose score was never computed.
pub const NO_RATING: u8 = 255;

/// The identity of a caller: a 160-bit account address, held as its upper 32
/// and its lower 128 bits.
#[derive(Clone, Copy, Debug, PartialEq, Eq, Hash, Structural)]
pub struct Address {
    pub hi: u32,
    pub lo: u128,
}

impl Address {
    /// The address whose low 64 bits are `v` and whose other bits are zero.
    pub fn from_low_u64_be(v: u64) -> (a: Address)
        ensures
            a == (Address { hi: 0, lo: v as u128 }),
    {
        Address { hi: 0, lo: v as u128 }
    }
}

impl Default for Address {
    fn default() -> (a: Address)
        ensures
            a == (Address { hi: 0, lo: 0 }),
    {
        Address { hi: 0, lo: 0 }
    }
}

/// Why an operation of the ledger was refused.
#[derive(Clone, Copy, Debug, PartialEq, Eq, Structural)]
pub enum Error {
    /// The context is registered already.
    ContextAlreadyExists,
    /// No context is registered under the given id.
    ContextNotFound,
    /// The caller is not the owner of the context.
    NotOwner,
    /// The transaction holds a rating of this entity type already.
    TransactionAlreadyRated,
}

/// One submitted judgment about one entity within one transaction.
#[derive(Debug, Default, PartialEq, Eq)]
pub struct Rating {
    pub transaction_id: TransactionId,
    pub rater: Person,
    pub entity_id: EntityId,
    pub entity_type: EntityType,
    pub timestamp: Timestamp,
    pub rating: u8,
    pub remark: Option<String>,
}

impl Clone for Rating {
    fn clone(&self) -> (copy: Self)
        ensures
            copy == *self,
    {
        Rating {
            transaction_id: self.transaction_id,
            rater: self.rater,
            entity_id: self.entity_id,
            entity_type: self.entity_type,
            timestamp: self.timestamp,
            rating: self.rating,
            remark: clone_remark(&self.remark),
        }
    }
}

/// A copy of an optional remark.
pub(crate) fn clone_remark(remark: &Option<String>) -> (copy: Option<String>)
    ensures
        copy == *remark,
{
    match remark {
        Some(text) => Some(text.clone()),
        None => None,
    }
}

/// Notifies that a context was registered.
#[derive(Clone, Copy, Debug, PartialEq, Eq, Structural)]
pub struct ContextCreated {
    pub context: ContextId,
    pub owner: Address,
    pub time: Timestamp,
}

/// Notifies that a rating was stored.
#[derive(Debug, PartialEq, Eq)]
pub struct RatingSubmitted {
    pub context: ContextId,
    pub user: Person,
    pub entity_id: EntityId,
    pub timestamp: Timestamp,
    pub entity_type: EntityType,
    pub rating: u8,
    pub remark: Option<String>,
}

/// Notifies that the cached score of an entity was recomputed.
#[derive(Clone, Copy, Debug, PartialEq, Eq, Structural)]
pub struct ScoreUpdated {
    pub context: ContextId,
    pub entity_id: EntityId,
    pub timestamp: Timestamp,
    pub entity_type: EntityType,
    pub score: Score,
}

/// A notification that an operation of the ledger gives rise to.
#[derive(Debug, PartialEq, Eq)]
pub enum Notification {
    /// A context was registered.
    Context(ContextCreated),
    /// A rating was stored.
    Rating(RatingSubmitted),
    /// A score was recomputed.
    Score(ScoreUpdated),
}

} // verus!

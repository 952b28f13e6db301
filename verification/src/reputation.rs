//! Reviews stored on behalf of the owners of contexts.
//!
//! The owner of a context submits a review of an entity in the name of the
//! person who wrote it, and deletes it again. A later review by the same
//! person of the same entity replaces the earlier one.

use crate::pair_map::PairMap;
use crate::registry::owns;
use crate::types::{Address, ContextId, EntityId};
use std::collections::HashMap;
use vstd::prelude::*;

verus! {

broadcast use vstd::std_specs::hash::group_hash_axioms;

/// A rating with a pointer to its comment.
#[derive(Debug, Default, PartialEq, Eq)]
pub struct Review {
    pub rating: u8,
    pub comment_uri: String,
}

impl Clone for Review {
    fn clone(&self) -> (copy: Self)
        ensures
            copy == *self,
    {
        Review { rating: self.rating, comment_uri: self.comment_uri.clone() }
    }
}

/// The contexts with their owners, and the reviews of all contexts.
pub struct ReputationState {
    /// The owner of each registered context.
    pub owners: Map<ContextId, Address>,
    /// The review that a person wrote of an entity, by context.
    pub reviews: Map<(ContextId, Address, EntityId), Review>,
}

/// The row of the review table that holds the reviews of one entity in one
/// context by the persons whose addresses share their upper bits.
pub open spec fn review_row(context: ContextId, author: Address, entity: EntityId) -> u128 {
    ((context as u128 * 0x1_0000_0000 + author.hi as u128) * 0x100 + entity as u128) as u128
}

/// Computes the row of a review.
fn review_row_key(context: ContextId, author: Address, entity: EntityId) -> (row: u128)
    ensures
        row == review_row(context, author, entity),
{
    ((context as u128) * 0x1_0000_0000u128 + (author.hi as u128)) * 0x100u128 + (entity as u128)
}

/// Different reviews have different places in the review table.
proof fn lemma_review_places_differ(
    c1: ContextId,
    a1: Address,
    e1: EntityId,
    c2: ContextId,
    a2: Address,
    e2: EntityId,
)
    ensures
        review_row(c1, a1, e1) == review_row(c2, a2, e2) && a1.lo == a2.lo ==> c1 == c2 && a1 == a2
            && e1 == e2,
{
}

/// The store of reviews.
pub struct Reputation {
    context_owners: HashMap<ContextId, Address>,
    reviews: PairMap<Review>,
}

impl View for Reputation {
    type V = ReputationState;

    closed spec fn view(&self) -> ReputationState {
        ReputationState {
            owners: self.context_owners@,
            reviews: Map::new(
                |k: (ContextId, Address, EntityId)|
                    self.reviews@.contains_key((review_row(k.0, k.1, k.2), k.1.lo)),
                |k: (ContextId, Address, EntityId)| self.reviews@[(review_row(k.0, k.1, k.2), k.1.lo)],
            ),
        }
    }
}

impl Reputation {
    /// A store without contexts and reviews.
    pub fn new() -> (store: Self)
        ensures
            store@.owners == Map::<ContextId, Address>::empty(),
            store@.reviews == Map::<(ContextId, Address, EntityId), Review>::empty(),
    {
        let store = Reputation { context_owners: HashMap::new(), reviews: PairMap::new() };
        assert(store@.reviews =~= Map::<(ContextId, Address, EntityId), Review>::empty());
        store
    }

    /// The owner of `context_id`, if it is registered.
    pub fn get_owner(&self, context_id: ContextId) -> (owner: Option<Address>)
        ensures
            owner == self@.owners.get(context_id),
    {
        match self.context_owners.get(&context_id) {
            Some(owner) => Some(*owner),
            None => None,
        }
    }

    /// Whether `caller` is the registered owner of `context_id`.
    pub fn is_owner(&self, context_id: ContextId, caller: Address) -> (yes: bool)
        ensures
            yes == owns(self@.owners, context_id, caller),
    {
        match self.context_owners.get(&context_id) {
            Some(owner) => *owner == caller,
            None => false,
        }
    }

    /// Registers `context_id`, which must be free, with `caller` as its
    /// owner.
    pub fn register_context(&mut self, context_id: ContextId, caller: Address)
        requires
            !old(self)@.owners.contains_key(context_id),
        ensures
            final(self)@.owners == old(self)@.owners.insert(context_id, caller),
            final(self)@.reviews == old(self)@.reviews,
    {
        self.context_owners.insert(context_id, caller);
    }

    /// Stores `review` of `entity` in the name of `author`, in place of an
    /// earlier one, on behalf of `caller`, who must own the context.
    pub fn submit_review(
        &mut self,
        context_id: ContextId,
        author: Address,
        review: Review,
        entity: EntityId,
        caller: Address,
    )
        requires
            owns(old(self)@.owners, context_id, caller),
        ensures
            final(self)@.owners == old(self)@.owners,
            final(self)@.reviews == old(self)@.reviews.insert((context_id, author, entity), review),
    {
        let row = review_row_key(context_id, author, entity);
        self.reviews.insert(row, author.lo, review);
        assert(self@.reviews =~= old(self)@.reviews.insert((context_id, author, entity), review)) by {
            assert forall|k: (ContextId, Address, EntityId)|
                self@.reviews.contains_key(k) <==> old(self)@.reviews.insert(
                    (context_id, author, entity),
                    review,
                ).contains_key(k) by {
                lemma_review_places_differ(k.0, k.1, k.2, context_id, author, entity);
            }
            assert forall|k: (ContextId, Address, EntityId)|
                self@.reviews.contains_key(k) implies self@.reviews[k] == old(self)@.reviews.insert(
                (context_id, author, entity),
                review,
            )[k] by {
                lemma_review_places_differ(k.0, k.1, k.2, context_id, author, entity);
            }
        }
    }

    /// Deletes the review of `entity` in the name of `author`, if there is
    /// one, on behalf of `caller`, who must own the context.
    pub fn delete_review(
        &mut self,
        context_id: ContextId,
        author: Address,
        entity: EntityId,
        caller: Address,
    )
        requires
            owns(old(self)@.owners, context_id, caller),
        ensures
            final(self)@.owners == old(self)@.owners,
            final(self)@.reviews == old(self)@.reviews.remove((context_id, author, entity)),
    {
        let row = review_row_key(context_id, author, entity);
        let _ = self.reviews.remove(row, author.lo);
        assert(self@.reviews =~= old(self)@.reviews.remove((context_id, author, entity))) by {
            assert forall|k: (ContextId, Address, EntityId)|
                self@.reviews.contains_key(k) <==> old(self)@.reviews.remove(
                    (context_id, author, entity),
                ).contains_key(k) by {
                lemma_review_places_differ(k.0, k.1, k.2, context_id, author, entity);
            }
        }
    }

    /// The review of `entity` in the name of `author`, if there is one.
    pub fn get_review(&self, context_id: ContextId, author: Address, entity: EntityId) -> (found:
        Option<Review>)
        ensures
            found == self@.reviews.get((context_id, author, entity)),
    {
        let row = review_row_key(context_id, author, entity);
        match self.reviews.get(row, author.lo) {
            Some(review) => Some(review.clone()),
            None => None,
        }
    }
}

} // verus!

//! Laws of the ledger, proved of its model.
//!
//! Each law is a proof function over `LedgerState`. The executable ledger
//! relates its state before and after every operation through the same spec
//! functions, so the laws hold of every run of it.

use crate::average::{after_updates, count_limit, AverageState};
use crate::registry::owner_check;
use crate::state::{
    inserted_once,
    lemma_inserted_once,
    lemma_total_bound,
    mean,
    total,
    LedgerState,
};
use crate::types::{Address, ContextId, EntityId, EntityType, Error, Rating, TransactionId};
use vstd::prelude::*;

verus! {

/// Inserting an element once is idempotent: a second insertion of the same
/// element leaves the list, and so its length, as it is.
pub proof fn lemma_insertion_idempotent<T>(list: Seq<T>, x: T)
    ensures
        inserted_once(inserted_once(list, x), x) == inserted_once(list, x),
        inserted_once(inserted_once(list, x), x).len() == inserted_once(list, x).len(),
{
    lemma_inserted_once(list, x);
}

/// Recording the same relation twice leaves the ledger as it is after the
/// first time.
pub proof fn lemma_relation_idempotent(
    s: LedgerState,
    context: ContextId,
    child: EntityType,
    parent: EntityType,
)
    ensures
        s.with_relation(context, child, parent).with_relation(context, child, parent)
            == s.with_relation(context, child, parent),
{
    let once = s.with_relation(context, child, parent);
    let twice = once.with_relation(context, child, parent);
    lemma_inserted_once(s.children_of(context, parent), child);
    assert(twice.relations =~= once.relations);
}

/// A transaction takes one rating per entity type. After a rating was
/// admitted, a second one for the same context, transaction and entity type is
/// refused whoever submits it, with `TransactionAlreadyRated` if it is the
/// owner, and the ledger stays as the first submission left it: the first
/// rating, the indexes and the values that scores are computed from.
pub proof fn lemma_second_submission_refused(
    s: LedgerState,
    caller: Address,
    context: ContextId,
    first: Rating,
    again: Address,
    second: Rating,
)
    requires
        s.submit_check(caller, context, first) is Ok,
        second.transaction_id == first.transaction_id,
        second.entity_type == first.entity_type,
    ensures
        s.submitted(caller, context, first).submit_check(again, context, second) is Err,
        again == caller ==> s.submitted(caller, context, first).submit_check(again, context, second)
            == Err::<(), Error>(Error::TransactionAlreadyRated),
        s.submitted(caller, context, first).submitted(again, context, second) == s.submitted(
            caller,
            context,
            first,
        ),
        s.submitted(caller, context, first).ratings[(
            context,
            first.transaction_id,
            first.entity_type,
        )] == first,
{
}

/// Only the owner writes. A caller who is not the registered owner of a
/// context is refused with `NotOwner`, and in a context that is not
/// registered everybody is refused with `ContextNotFound`. Neither a
/// submission nor a score update of such a caller changes the ledger.
pub proof fn lemma_only_owner_writes(
    s: LedgerState,
    caller: Address,
    context: ContextId,
    rating: Rating,
    entity: EntityId,
)
    requires
        owner_check(s.owners, context, caller) is Err,
    ensures
        s.owners.contains_key(context) ==> s.owners[context] != caller && owner_check(
            s.owners,
            context,
            caller,
        ) == Err::<(), Error>(Error::NotOwner),
        !s.owners.contains_key(context) ==> owner_check(s.owners, context, caller) == Err::<
            (),
            Error,
        >(Error::ContextNotFound),
        s.submit_check(caller, context, rating) == owner_check(s.owners, context, caller),
        s.submitted(caller, context, rating) == s,
        s.rescored(caller, context, entity) == s,
{
}

/// The queries about an entity list a transaction only if it holds a rating
/// about that entity: a transaction whose ratings are all about other
/// entities has no row in them.
pub proof fn lemma_entity_rows_are_about_entity(
    s: LedgerState,
    context: ContextId,
    entity: EntityId,
    tx: TransactionId,
    types: Seq<EntityType>,
)
    requires
        s.wf(),
        forall|ty: EntityType| !s.rates(context, tx, ty, entity),
    ensures
        !s.transactions_for_entity(context, entity).contains(tx),
        forall|i: int|
            0 <= i < s.ratings_for_entity(context, entity, types).len() ==> (
            #[trigger] s.ratings_for_entity(context, entity, types)[i]).0 != tx,
{
    if s.transactions_for_entity(context, entity).contains(tx) {
        assert(s.entity_rated_in(context, entity, tx));
    }
    assert forall|i: int| 0 <= i < s.ratings_for_entity(context, entity, types).len() implies (
    #[trigger] s.ratings_for_entity(context, entity, types)[i]).0 != tx by {
        assert(s.transactions_for_entity(context, entity).contains(
            s.transactions_for_entity(context, entity)[i],
        ));
    }
}

/// Every rating that a query about an entity returns is stored in the
/// queried context under the transaction of its row and the type of its
/// slot.
pub proof fn lemma_rows_come_from_context(
    s: LedgerState,
    context: ContextId,
    entity: EntityId,
    types: Seq<EntityType>,
    i: int,
    j: int,
)
    requires
        s.wf(),
        0 <= i < s.ratings_for_entity(context, entity, types).len(),
        0 <= j < types.len(),
        s.ratings_for_entity(context, entity, types)[i].1[j] is Some,
    ensures
        s.rated(context, s.ratings_for_entity(context, entity, types)[i].0, types[j]),
        s.ratings_for_entity(context, entity, types)[i].1[j] == Some(
            s.ratings[(context, s.ratings_for_entity(context, entity, types)[i].0, types[j])],
        ),
        s.ratings_for_entity(context, entity, types)[i].1[j].unwrap().transaction_id
            == s.ratings_for_entity(context, entity, types)[i].0,
        s.ratings_for_entity(context, entity, types)[i].1[j].unwrap().entity_type == types[j],
{
    let tx = s.transactions_for_entity(context, entity)[i];
    assert(s.ratings_for_entity(context, entity, types)[i].1[j] == s.ratings.get(
        (context, tx, types[j]),
    ));
    assert(s.rated(context, tx, types[j]));
}

/// Contexts are isolated: a submission into one context changes nothing
/// that a query on another context returns.
pub proof fn lemma_contexts_isolated(
    s: LedgerState,
    caller: Address,
    context: ContextId,
    rating: Rating,
    other: ContextId,
    entity: EntityId,
    types: Seq<EntityType>,
)
    requires
        other != context,
    ensures
        s.submitted(caller, context, rating).transactions_in(other) == s.transactions_in(other),
        s.submitted(caller, context, rating).transactions_for_entity(other, entity)
            == s.transactions_for_entity(other, entity),
        s.submitted(caller, context, rating).values_of(other, entity) == s.values_of(other, entity),
        s.submitted(caller, context, rating).score_of(other, entity) == s.score_of(other, entity),
        s.submitted(caller, context, rating).all_ratings(other, types) == s.all_ratings(
            other,
            types,
        ),
        s.submitted(caller, context, rating).ratings_for_entity(other, entity, types)
            == s.ratings_for_entity(other, entity, types),
{
    let t = s.submitted(caller, context, rating);
    assert forall|tx: TransactionId|
        t.ratings_for_transaction(other, tx, types) == s.ratings_for_transaction(
            other,
            tx,
            types,
        ) by {
        assert(t.ratings_for_transaction(other, tx, types) =~= s.ratings_for_transaction(
            other,
            tx,
            types,
        ));
    }
    assert(t.all_ratings(other, types) =~= s.all_ratings(other, types));
    assert(t.ratings_for_entity(other, entity, types) =~= s.ratings_for_entity(
        other,
        entity,
        types,
    ));
}

/// Entities are isolated: a submission about one entity changes neither the
/// transactions listed for another entity, nor its values, nor its score.
pub proof fn lemma_entities_isolated(
    s: LedgerState,
    caller: Address,
    context: ContextId,
    rating: Rating,
    other: EntityId,
)
    requires
        other != rating.entity_id,
    ensures
        s.submitted(caller, context, rating).transactions_for_entity(context, other)
            == s.transactions_for_entity(context, other),
        s.submitted(caller, context, rating).values_of(context, other) == s.values_of(
            context,
            other,
        ),
        s.submitted(caller, context, rating).score_of(context, other) == s.score_of(context, other),
{
}

/// The updates that put each of `values` into a running average, in order.
pub open spec fn insertions(values: Seq<u8>) -> Seq<(Option<nat>, Option<nat>)> {
    Seq::new(values.len(), |i: int| (None::<nat>, Some(values[i] as nat)))
}

/// A list of rating values that is fed into an empty running average, value
/// by value, gives the score that the ledger computes from the list: the
/// average holds the sum and the number of the values, and its value is their
/// rounded-down mean. The list must not be longer than a running average can
/// count.
pub proof fn lemma_mean_is_running_average(values: Seq<u8>)
    requires
        values.len() <= count_limit(),
    ensures
        after_updates(AverageState::empty(), insertions(values)) == (AverageState {
            sum: total(values),
            count: values.len(),
        }),
        after_updates(AverageState::empty(), insertions(values)).value() == mean(values),
    decreases values.len(),
{
    if values.len() > 0 {
        let front = values.drop_last();
        lemma_mean_is_running_average(front);
        assert(insertions(values).drop_last() =~= insertions(front));
        lemma_total_bound(front);
    }
}

} // verus!

//! The reputation ledger.
//!
//! `RepSystem` stores the ratings of all contexts, keeps the indexes by
//! transaction and by entity in step with them, caches the score of each
//! entity, and lets only the owner of a context write into it. The caller's
//! identity and the time are handed in, and the notification that an
//! operation gives rise to is handed back.

use crate::pair_map::PairMap;
use crate::registry::{owner_check, ContextRegistry};
use crate::state::{
    inserted_once,
    lemma_empty_wf,
    lemma_mean_bound,
    lemma_with_context_wf,
    lemma_with_rating_wf,
    lemma_with_relation_wf,
    lemma_with_score_wf,
    mean,
    rating_notice,
    total,
    LedgerState,
};
use crate::types::{
    clone_remark,
    Address,
    ContextCreated,
    ContextId,
    EntityId,
    EntityType,
    Error,
    Rating,
    RatingSubmitted,
    Score,
    ScoreUpdated,
    Timestamp,
    TransactionId,
    NO_RATING,
};
use std::collections::HashMap;
use vstd::prelude::*;

verus! {

broadcast use vstd::std_specs::hash::group_hash_axioms;

/// The row of the rating table that holds the ratings of one transaction of
/// one context.
pub open spec fn row_of(context: ContextId, tx: TransactionId) -> u128 {
    (context as u128 * 0x1_0000_0000_0000_0000 + tx as u128) as u128
}

/// Computes the row of one transaction of one context.
fn row_key(context: ContextId, tx: TransactionId) -> (row: u128)
    ensures
        row == row_of(context, tx),
{
    (context as u128) * 0x1_0000_0000_0000_0000u128 + (tx as u128)
}

/// Different transactions have different rows.
proof fn lemma_rows_differ(c1: ContextId, t1: TransactionId, c2: ContextId, t2: TransactionId)
    ensures
        row_of(c1, t1) == row_of(c2, t2) ==> c1 == c2 && t1 == t2,
{
}

/// Appends `elem` to `list` unless the list holds it already.
fn push_once(list: &mut Vec<TransactionId>, elem: TransactionId)
    ensures
        final(list)@ == inserted_once(old(list)@, elem),
{
    let mut i: usize = 0;
    while i < list.len()
        invariant
            i <= list.len(),
            *list == *old(list),
            forall|j: int| 0 <= j < i ==> list@[j] != elem,
        decreases list.len() - i,
    {
        if list[i] == elem {
            return ;
        }
        i += 1;
    }
    list.push(elem);
}

/// Appends the entity type `elem` to `list` unless the list holds it already.
fn push_type_once(list: &mut Vec<EntityType>, elem: EntityType)
    ensures
        final(list)@ == inserted_once(old(list)@, elem),
{
    let mut i: usize = 0;
    while i < list.len()
        invariant
            i <= list.len(),
            *list == *old(list),
            forall|j: int| 0 <= j < i ==> list@[j] != elem,
        decreases list.len() - i,
    {
        if list[i] == elem {
            return ;
        }
        i += 1;
    }
    list.push(elem);
}

/// The list that `mapping` holds under `key`, which is empty where it holds
/// none.
pub open spec fn stored_list(mapping: Map<(u128, u128), Vec<TransactionId>>, key: (u128, u128))
    -> Seq<TransactionId> {
    if mapping.contains_key(key) {
        mapping[key]@
    } else {
        Seq::empty()
    }
}

/// Inserts `elem` into the list that `mapping` holds under `(a, b)`, unless
/// the list holds it already. A list that was missing is there afterwards.
fn insert_list_element_into(
    mapping: &mut PairMap<Vec<TransactionId>>,
    a: u128,
    b: u128,
    elem: TransactionId,
)
    ensures
        final(mapping)@.dom() == old(mapping)@.dom().insert((a, b)),
        final(mapping)@[(a, b)]@ == inserted_once(stored_list(old(mapping)@, (a, b)), elem),
        forall|k: (u128, u128)|
            k != (a, b) && old(mapping)@.contains_key(k) ==> final(mapping)@[k] == old(mapping)@[k],
{
    let mut list = match mapping.remove(a, b) {
        Some(list) => list,
        None => Vec::new(),
    };
    push_once(&mut list, elem);
    mapping.insert(a, b, list);
    assert(final(mapping)@.dom() =~= old(mapping)@.dom().insert((a, b)));
}

/// A copy of a list of transactions.
fn copy_list(list: &Vec<u64>) -> (copy: Vec<u64>)
    ensures
        copy@ == list@,
{
    let mut copy: Vec<u64> = Vec::new();
    let mut i: usize = 0;
    while i < list.len()
        invariant
            i <= list.len(),
            copy@ == list@.take(i as int),
        decreases list.len() - i,
    {
        copy.push(list[i]);
        assert(list@.take(i + 1) =~= list@.take(i as int).push(list@[i as int]));
        i += 1;
    }
    assert(list@.take(list@.len() as int) =~= list@);
    copy
}

/// The rounded-down mean of a non-empty list of rating values.
fn mean_of(values: &Vec<u8>) -> (score: Score)
    requires
        values@.len() > 0,
    ensures
        score == mean(values@),
{
    let mut sum: u128 = 0;
    let mut i: usize = 0;
    while i < values.len()
        invariant
            i <= values.len(),
            sum == total(values@.take(i as int)),
            sum <= 255 * i,
        decreases values.len() - i,
    {
        assert(values@.take(i + 1).drop_last() =~= values@.take(i as int));
        sum = sum + values[i] as u128;
        i += 1;
    }
    assert(values@.take(values@.len() as int) =~= values@);
    proof {
        lemma_mean_bound(values@);
    }
    (sum / (values.len() as u128)) as u8
}

/// Ratings as a query returns them, with each list taken by its contents.
pub open spec fn rows_view(rows: Seq<(TransactionId, Vec<Option<Rating>>)>) -> Seq<
    (TransactionId, Seq<Option<Rating>>),
> {
    Seq::new(rows.len(), |i: int| (rows[i].0, rows[i].1@))
}

/// The ledger of ratings, indexes and scores of all contexts.
pub struct RepSystem {
    owners: ContextRegistry,
    relations: PairMap<Vec<EntityType>>,
    transactions: HashMap<ContextId, Vec<TransactionId>>,
    ratings_per_transaction: PairMap<Rating>,
    transaction_per_entity: PairMap<Vec<TransactionId>>,
    scores_per_entity: PairMap<Vec<u8>>,
    score_cache: PairMap<Score>,
}

impl View for RepSystem {
    type V = LedgerState;

    closed spec fn view(&self) -> LedgerState {
        LedgerState {
            owners: self.owners@,
            relations: Map::new(
                |k: (ContextId, EntityType)|
                    self.relations@.contains_key((k.0 as u128, k.1 as u128)),
                |k: (ContextId, EntityType)| self.relations@[(k.0 as u128, k.1 as u128)]@,
            ),
            transactions: Map::new(
                |c: ContextId| self.transactions@.contains_key(c),
                |c: ContextId| self.transactions@[c]@,
            ),
            ratings: Map::new(
                |k: (ContextId, TransactionId, EntityType)|
                    self.ratings_per_transaction@.contains_key((row_of(k.0, k.1), k.2 as u128)),
                |k: (ContextId, TransactionId, EntityType)|
                    self.ratings_per_transaction@[(row_of(k.0, k.1), k.2 as u128)],
            ),
            entity_transactions: Map::new(
                |k: (ContextId, EntityId)|
                    self.transaction_per_entity@.contains_key((k.0 as u128, k.1 as u128)),
                |k: (ContextId, EntityId)| self.transaction_per_entity@[(k.0 as u128, k.1 as u128)]@,
            ),
            entity_values: Map::new(
                |k: (ContextId, EntityId)|
                    self.scores_per_entity@.contains_key((k.0 as u128, k.1 as u128)),
                |k: (ContextId, EntityId)| self.scores_per_entity@[(k.0 as u128, k.1 as u128)]@,
            ),
            scores: Map::new(
                |k: (ContextId, EntityId)| self.score_cache@.contains_key((k.0 as u128, k.1 as u128)),
                |k: (ContextId, EntityId)| self.score_cache@[(k.0 as u128, k.1 as u128)],
            ),
        }
    }
}

impl RepSystem {
    /// Whether the indexes agree with the stored ratings.
    pub open spec fn wf(&self) -> bool {
        self@.wf()
    }

    /// A ledger that holds nothing.
    pub fn new() -> (ledger: Self)
        ensures
            ledger@ == LedgerState::empty(),
            ledger.wf(),
    {
        let ledger = RepSystem {
            owners: ContextRegistry::new(),
            relations: PairMap::new(),
            transactions: HashMap::new(),
            ratings_per_transaction: PairMap::new(),
            transaction_per_entity: PairMap::new(),
            scores_per_entity: PairMap::new(),
            score_cache: PairMap::new(),
        };
        proof {
            let v = ledger@;
            let e = LedgerState::empty();
            assert(v.relations =~= e.relations);
            assert(v.transactions =~= e.transactions);
            assert(v.ratings =~= e.ratings);
            assert(v.entity_transactions =~= e.entity_transactions);
            assert(v.entity_values =~= e.entity_values);
            assert(v.scores =~= e.scores);
            lemma_empty_wf();
        }
        ledger
    }

    /// Registers `context` with `caller` as its owner, unless it is registered
    /// already. On success the notification to publish is returned.
    pub fn register_context(&mut self, context: ContextId, caller: Address, time: Timestamp) -> (outcome:
        Result<ContextCreated, Error>)
        requires
            old(self).wf(),
        ensures
            final(self).wf(),
            old(self)@.owners.contains_key(context) ==> outcome == Err::<ContextCreated, Error>(
                Error::ContextAlreadyExists,
            ) && final(self)@ == old(self)@,
            !old(self)@.owners.contains_key(context) ==> outcome == Ok::<ContextCreated, Error>(
                ContextCreated { context, owner: caller, time },
            ) && final(self)@ == old(self)@.with_context(context, caller),
    {
        let outcome = self.owners.register_context(context, caller, time);
        proof {
            if !old(self)@.owners.contains_key(context) {
                lemma_with_context_wf(old(self)@, context, caller);
            }
        }
        outcome
    }

    /// The ownership guard: succeeds exactly when `caller` owns `context`.
    pub fn check_owner(&self, context: ContextId, caller: Address) -> (outcome: Result<(), Error>)
        ensures
            outcome == owner_check(self@.owners, context, caller),
    {
        self.owners.check_owner(context, caller)
    }

    /// Records that entities of type `from` feed the aggregate of type `to`.
    /// Recording a relation again changes nothing.
    pub fn insert_relation(&mut self, context: ContextId, from: EntityType, to: EntityType)
        requires
            old(self).wf(),
        ensures
            final(self).wf(),
            final(self)@ == old(self)@.with_relation(context, from, to),
    {
        let mut list = match self.relations.remove(context as u128, to as u128) {
            Some(list) => list,
            None => Vec::new(),
        };
        assert(list@ == old(self)@.children_of(context, to));
        push_type_once(&mut list, from);
        self.relations.insert(context as u128, to as u128, list);
        proof {
            assert(self@.relations =~= old(self)@.with_relation(context, from, to).relations);
            lemma_with_relation_wf(old(self)@, context, from, to);
        }
    }

    /// The child types recorded as feeding `parent`, in the order recorded.
    pub fn get_relations(&self, context: ContextId, parent: EntityType) -> (children: Vec<EntityType>)
        ensures
            children@ == self@.children_of(context, parent),
    {
        let mut children: Vec<EntityType> = Vec::new();
        match self.relations.get(context as u128, parent as u128) {
            Some(list) => {
                let mut i: usize = 0;
                while i < list.len()
                    invariant
                        i <= list.len(),
                        children@ == list@.take(i as int),
                    decreases list.len() - i,
                {
                    children.push(list[i]);
                    assert(list@.take(i + 1) =~= list@.take(i as int).push(list@[i as int]));
                    i += 1;
                }
                assert(list@.take(list@.len() as int) =~= list@);
            },
            None => {},
        }
        children
    }

    /// Stores `rating` in `context` on behalf of `caller`.
    ///
    /// The caller must own the context, and the transaction must not hold a
    /// rating of this entity type yet. The rating is then stored and indexed,
    /// its value joins the values of its entity, and the notification to
    /// publish is returned. A refused submission changes nothing.
    pub fn submit_rating(&mut self, context: ContextId, rating: Rating, caller: Address) -> (outcome:
        Result<RatingSubmitted, Error>)
        requires
            old(self).wf(),
        ensures
            final(self).wf(),
            final(self)@ == old(self)@.submitted(caller, context, rating),
            match old(self)@.submit_check(caller, context, rating) {
                Ok(_) => outcome == Ok::<RatingSubmitted, Error>(rating_notice(context, rating)),
                Err(e) => outcome == Err::<RatingSubmitted, Error>(e),
            },
    {
        match self.owners.check_owner(context, caller) {
            Err(e) => {
                return Err(e);
            },
            Ok(_) => {},
        }
        let tx = rating.transaction_id;
        let entity = rating.entity_id;
        let row = row_key(context, tx);
        if self.ratings_per_transaction.contains_key(row, rating.entity_type as u128) {
            return Err(Error::TransactionAlreadyRated);
        }
        let notice = RatingSubmitted {
            context,
            user: rating.rater,
            entity_id: rating.entity_id,
            timestamp: rating.timestamp,
            entity_type: rating.entity_type,
            rating: rating.rating,
            remark: clone_remark(&rating.remark),
        };
        let value = rating.rating;
        let ghost stored = rating;

        let mut txs = match self.transactions.remove(&context) {
            Some(list) => list,
            None => Vec::new(),
        };
        assert(txs@ == old(self)@.transactions_in(context));
        push_once(&mut txs, tx);
        self.transactions.insert(context, txs);

        self.ratings_per_transaction.insert(row, rating.entity_type as u128, rating);

        insert_list_element_into(
            &mut self.transaction_per_entity,
            context as u128,
            entity as u128,
            tx,
        );

        let mut values = match self.scores_per_entity.remove(context as u128, entity as u128) {
            Some(list) => list,
            None => Vec::new(),
        };
        assert(values@ == old(self)@.values_of(context, entity));
        values.push(value);
        self.scores_per_entity.insert(context as u128, entity as u128, values);

        proof {
            let before = old(self)@;
            let after = before.with_rating(context, stored);
            assert(self@.transactions =~= after.transactions);
            assert(self@.ratings =~= after.ratings) by {
                assert forall|k: (ContextId, TransactionId, EntityType)|
                    self@.ratings.contains_key(k) <==> after.ratings.contains_key(k) by {
                    lemma_rows_differ(k.0, k.1, context, tx);
                }
                assert forall|k: (ContextId, TransactionId, EntityType)|
                    self@.ratings.contains_key(k) implies self@.ratings[k] == after.ratings[k] by {
                    lemma_rows_differ(k.0, k.1, context, tx);
                }
            }
            assert(self@.entity_transactions =~= after.entity_transactions);
            assert(self@.entity_values =~= after.entity_values);
            assert(self@.relations =~= after.relations);
            assert(self@.scores =~= after.scores);
            lemma_with_rating_wf(before, caller, context, stored);
        }
        Ok(notice)
    }

    /// Recomputes the cached score of `entity_id` as the rounded-down mean of
    /// the values submitted about it, on behalf of `caller`.
    ///
    /// The caller must own the context; a refused call changes nothing. The
    /// entity must have a value on record, as it has after a submission.
    /// `hint` is the score that the caller expects; the ledger computes the
    /// score itself and does not rely on it.
    pub fn update_score(
        &mut self,
        context: ContextId,
        entity_id: EntityId,
        entity_type: EntityType,
        hint: Score,
        caller: Address,
        timestamp: Timestamp,
    ) -> (outcome: Result<ScoreUpdated, Error>)
        requires
            old(self).wf(),
            owner_check(old(self)@.owners, context, caller) is Ok ==> old(self)@.values_of(
                context,
                entity_id,
            ).len() > 0,
        ensures
            final(self).wf(),
            final(self)@ == old(self)@.rescored(caller, context, entity_id),
            match owner_check(old(self)@.owners, context, caller) {
                Ok(_) => outcome == Ok::<ScoreUpdated, Error>(
                    old(self)@.score_notice(context, entity_id, entity_type, timestamp),
                ),
                Err(e) => outcome == Err::<ScoreUpdated, Error>(e),
            },
    {
        match self.owners.check_owner(context, caller) {
            Err(e) => {
                return Err(e);
            },
            Ok(_) => {},
        }
        let values = self.scores_per_entity.get(context as u128, entity_id as u128).unwrap();
        let score = mean_of(values);
        self.score_cache.insert(context as u128, entity_id as u128, score);
        proof {
            let after = old(self)@.with_score(context, entity_id);
            assert(self@.scores =~= after.scores);
            assert(self@.relations =~= after.relations);
            assert(self@.transactions =~= after.transactions);
            assert(self@.ratings =~= after.ratings);
            assert(self@.entity_transactions =~= after.entity_transactions);
            assert(self@.entity_values =~= after.entity_values);
            lemma_with_score_wf(old(self)@, context, entity_id);
        }
        Ok(ScoreUpdated { context, entity_id, timestamp, entity_type, score })
    }

    /// The cached score of `entity`, or `NO_RATING` where none was computed.
    pub fn get_score(&self, context: ContextId, entity: EntityId) -> (score: Score)
        ensures
            score == self@.score_of(context, entity),
    {
        match self.score_cache.get(context as u128, entity as u128) {
            Some(score) => *score,
            None => NO_RATING,
        }
    }

    /// Whether a value is on record for `entity`, so that its score can be
    /// computed.
    pub fn has_values(&self, context: ContextId, entity: EntityId) -> (yes: bool)
        ensures
            yes == (self@.values_of(context, entity).len() > 0),
    {
        match self.scores_per_entity.get(context as u128, entity as u128) {
            Some(values) => values.len() > 0,
            None => false,
        }
    }

    /// Whether a rating is stored for `(context, transaction, entity_type)`.
    pub fn is_rated(&self, context: ContextId, transaction: TransactionId, entity_type: EntityType) -> (yes:
        bool)
        ensures
            yes == self@.rated(context, transaction, entity_type),
    {
        let row = row_key(context, transaction);
        self.ratings_per_transaction.contains_key(row, entity_type as u128)
    }

    /// The rating values submitted about `entity`, in order.
    pub fn get_values_for_entity(&self, context: ContextId, entity: EntityId) -> (values: Vec<u8>)
        ensures
            values@ == self@.values_of(context, entity),
    {
        let mut values: Vec<u8> = Vec::new();
        match self.scores_per_entity.get(context as u128, entity as u128) {
            Some(list) => {
                let mut i: usize = 0;
                while i < list.len()
                    invariant
                        i <= list.len(),
                        values@ == list@.take(i as int),
                    decreases list.len() - i,
                {
                    values.push(list[i]);
                    assert(list@.take(i + 1) =~= list@.take(i as int).push(list@[i as int]));
                    i += 1;
                }
                assert(list@.take(list@.len() as int) =~= list@);
            },
            None => {},
        }
        values
    }

    /// The transactions that hold a rating about `entity_id`, in the order of
    /// their first such rating; none for an entity that was never rated.
    pub fn get_transactions_for_entity(&self, context: ContextId, entity_id: EntityId) -> (txs: Vec<
        TransactionId,
    >)
        ensures
            txs@ == self@.transactions_for_entity(context, entity_id),
    {
        match self.transaction_per_entity.get(context as u128, entity_id as u128) {
            Some(list) => copy_list(list),
            None => Vec::new(),
        }
    }

    /// The transactions of `context`, in the order of their first rating.
    pub fn get_transactions(&self, context: ContextId) -> (txs: Vec<TransactionId>)
        ensures
            txs@ == self@.transactions_in(context),
    {
        match self.transactions.get(&context) {
            Some(list) => copy_list(list),
            None => Vec::new(),
        }
    }

    /// The ratings of one transaction: for each requested type, in the order
    /// requested, the rating stored for it or `None`.
    pub fn get_ratings_for_transaction(
        &self,
        context: ContextId,
        transaction: TransactionId,
        entity_types: &Vec<EntityType>,
    ) -> (ratings: Vec<Option<Rating>>)
        ensures
            ratings@ == self@.ratings_for_transaction(context, transaction, entity_types@),
    {
        let row = row_key(context, transaction);
        let mut ratings: Vec<Option<Rating>> = Vec::new();
        let mut i: usize = 0;
        while i < entity_types.len()
            invariant
                i <= entity_types.len(),
                row == row_of(context, transaction),
                ratings@ == self@.ratings_for_transaction(
                    context,
                    transaction,
                    entity_types@.take(i as int),
                ),
            decreases entity_types.len() - i,
        {
            let ty = entity_types[i];
            let slot = match self.ratings_per_transaction.get(row, ty as u128) {
                Some(r) => Some(r.clone()),
                None => None,
            };
            assert(slot == self@.ratings.get((context, transaction, ty)));
            ratings.push(slot);
            assert(ratings@ =~= self@.ratings_for_transaction(
                context,
                transaction,
                entity_types@.take(i + 1),
            ));
            i += 1;
        }
        assert(entity_types@.take(entity_types@.len() as int) =~= entity_types@);
        ratings
    }

    /// For each of `txs`, in order, the transaction and its ratings of the
    /// requested types.
    fn collect_ratings(
        &self,
        context: ContextId,
        txs: &Vec<TransactionId>,
        entity_types: &Vec<EntityType>,
    ) -> (rows: Vec<(TransactionId, Vec<Option<Rating>>)>)
        ensures
            rows_view(rows@) == self@.ratings_for_transactions(context, txs@, entity_types@),
    {
        let mut rows: Vec<(TransactionId, Vec<Option<Rating>>)> = Vec::new();
        let mut i: usize = 0;
        while i < txs.len()
            invariant
                i <= txs.len(),
                rows@.len() == i,
                rows_view(rows@) == self@.ratings_for_transactions(
                    context,
                    txs@.take(i as int),
                    entity_types@,
                ),
            decreases txs.len() - i,
        {
            let tx = txs[i];
            let ratings = self.get_ratings_for_transaction(context, tx, entity_types);
            let ghost before = rows@;
            rows.push((tx, ratings));
            assert(rows_view(rows@) =~= self@.ratings_for_transactions(
                context,
                txs@.take(i + 1),
                entity_types@,
            )) by {
                let done = self@.ratings_for_transactions(context, txs@.take(i as int), entity_types@);
                let next = self@.ratings_for_transactions(context, txs@.take(i + 1), entity_types@);
                assert forall|j: int| 0 <= j < i + 1 implies rows_view(rows@)[j] == next[j] by {
                    if j < i {
                        assert(rows@[j] == before[j]);
                        assert(rows_view(before)[j] == done[j]);
                        assert(txs@.take(i as int)[j] == txs@.take(i + 1)[j]);
                    }
                }
            }
            i += 1;
        }
        assert(txs@.take(txs@.len() as int) =~= txs@);
        rows
    }

    /// The ratings of every transaction that holds a rating about
    /// `entity_id`, one row for each such transaction.
    pub fn get_ratings_for_entity(
        &self,
        context: ContextId,
        entity_id: EntityId,
        entity_types: &Vec<EntityType>,
    ) -> (rows: Vec<(TransactionId, Vec<Option<Rating>>)>)
        ensures
            rows_view(rows@) == self@.ratings_for_entity(context, entity_id, entity_types@),
    {
        let txs = self.get_transactions_for_entity(context, entity_id);
        self.collect_ratings(context, &txs, entity_types)
    }

    /// The ratings of every transaction of `context`, one row for each
    /// transaction.
    pub fn get_ratings(&self, context: ContextId, entity_types: &Vec<EntityType>) -> (rows: Vec<
        (TransactionId, Vec<Option<Rating>>),
    >)
        ensures
            rows_view(rows@) == self@.all_ratings(context, entity_types@),
    {
        let txs = self.get_transactions(context);
        self.collect_ratings(context, &txs, entity_types)
    }
}

} // verus!

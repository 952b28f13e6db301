//! The mathematical model of the ledger.
//!
//! `LedgerState` says what a ledger holds, as maps and sequences, and its
//! spec functions say what each operation does to it. The executable ledger
//! is specified against this model, and the laws of the ledger are proved of
//! it.

use crate::registry::owner_check;
use crate::types::{
    Address,
    ContextId,
    EntityId,
    EntityType,
    Error,
    Notification,
    Rating,
    RatingSubmitted,
    Score,
    ScoreUpdated,
    Timestamp,
    TransactionId,
    NO_RATING,
};
use vstd::prelude::*;

verus! {

/// The list stored under `key`, which is empty where nothing is stored.
pub open spec fn list_at<K, T>(lists: Map<K, Seq<T>>, key: K) -> Seq<T> {
    if lists.contains_key(key) {
        lists[key]
    } else {
        Seq::empty()
    }
}

/// `list` with `x` appended unless it occurs already: a set that remembers
/// the order of insertion.
pub open spec fn inserted_once<T>(list: Seq<T>, x: T) -> Seq<T> {
    if list.contains(x) {
        list
    } else {
        list.push(x)
    }
}

/// The sum of a list of rating values.
pub open spec fn total(values: Seq<u8>) -> nat
    decreases values.len(),
{
    if values.len() == 0 {
        0
    } else {
        total(values.drop_last()) + values.last() as nat
    }
}

/// The rounded-down mean of a list of rating values; zero for no values.
pub open spec fn mean(values: Seq<u8>) -> nat {
    if values.len() == 0 {
        0
    } else {
        total(values) / values.len()
    }
}

/// The sum of a list of rating values is at most 255 for each value.
pub proof fn lemma_total_bound(values: Seq<u8>)
    ensures
        total(values) <= 255 * values.len(),
    decreases values.len(),
{
    if values.len() > 0 {
        lemma_total_bound(values.drop_last());
    }
}

/// The mean of a list of rating values is a rating value.
pub proof fn lemma_mean_bound(values: Seq<u8>)
    ensures
        mean(values) <= 255,
{
    lemma_total_bound(values);
    if values.len() > 0 {
        let t = total(values) as int;
        let n = values.len() as int;
        assert(t / n <= 255) by (nonlinear_arith)
            requires
                n > 0,
                0 <= t <= 255 * n,
        ;
    }
}

/// The notification that `rating` was stored in `context`.
pub open spec fn rating_notice(context: ContextId, rating: Rating) -> RatingSubmitted {
    RatingSubmitted {
        context,
        user: rating.rater,
        entity_id: rating.entity_id,
        timestamp: rating.timestamp,
        entity_type: rating.entity_type,
        rating: rating.rating,
        remark: rating.remark,
    }
}

/// What a ledger holds.
pub struct LedgerState {
    /// The owner of each registered context.
    pub owners: Map<ContextId, Address>,
    /// For a context and a parent entity type, the child types that feed it.
    pub relations: Map<(ContextId, EntityType), Seq<EntityType>>,
    /// The transactions rated in a context, in the order of their first
    /// rating.
    pub transactions: Map<ContextId, Seq<TransactionId>>,
    /// The rating stored for a context, a transaction and an entity type.
    pub ratings: Map<(ContextId, TransactionId, EntityType), Rating>,
    /// The transactions that hold a rating about an entity.
    pub entity_transactions: Map<(ContextId, EntityId), Seq<TransactionId>>,
    /// The rating values submitted about an entity, in order.
    pub entity_values: Map<(ContextId, EntityId), Seq<u8>>,
    /// The score last computed for an entity.
    pub scores: Map<(ContextId, EntityId), Score>,
}

impl LedgerState {
    /// A ledger that holds nothing.
    pub open spec fn empty() -> LedgerState {
        LedgerState {
            owners: Map::empty(),
            relations: Map::empty(),
            transactions: Map::empty(),
            ratings: Map::empty(),
            entity_transactions: Map::empty(),
            entity_values: Map::empty(),
            scores: Map::empty(),
        }
    }

    /// Whether a rating is stored for `(context, tx, ty)`.
    pub open spec fn rated(self, context: ContextId, tx: TransactionId, ty: EntityType) -> bool {
        self.ratings.contains_key((context, tx, ty))
    }

    /// Whether transaction `tx` holds a rating of some type in `context`.
    pub open spec fn transaction_rated(self, context: ContextId, tx: TransactionId) -> bool {
        exists|ty: EntityType| self.rated(context, tx, ty)
    }

    /// Whether the rating stored for `(context, tx, ty)` is about `entity`.
    pub open spec fn rates(
        self,
        context: ContextId,
        tx: TransactionId,
        ty: EntityType,
        entity: EntityId,
    ) -> bool {
        self.rated(context, tx, ty) && self.ratings[(context, tx, ty)].entity_id == entity
    }

    /// Whether transaction `tx` holds a rating about `entity` in `context`.
    pub open spec fn entity_rated_in(
        self,
        context: ContextId,
        entity: EntityId,
        tx: TransactionId,
    ) -> bool {
        exists|ty: EntityType| self.rates(context, tx, ty, entity)
    }

    /// The transactions of a context, in the order of their first rating.
    pub open spec fn transactions_in(self, context: ContextId) -> Seq<TransactionId> {
        list_at(self.transactions, context)
    }

    /// The transactions that hold a rating about `entity`.
    pub open spec fn transactions_for_entity(self, context: ContextId, entity: EntityId) -> Seq<
        TransactionId,
    > {
        list_at(self.entity_transactions, (context, entity))
    }

    /// The rating values submitted about `entity`.
    pub open spec fn values_of(self, context: ContextId, entity: EntityId) -> Seq<u8> {
        list_at(self.entity_values, (context, entity))
    }

    /// The child types recorded as feeding `parent`.
    pub open spec fn children_of(self, context: ContextId, parent: EntityType) -> Seq<EntityType> {
        list_at(self.relations, (context, parent))
    }

    /// The cached score of an entity, or `NO_RATING` where none was computed.
    pub open spec fn score_of(self, context: ContextId, entity: EntityId) -> Score {
        if self.scores.contains_key((context, entity)) {
            self.scores[(context, entity)]
        } else {
            NO_RATING
        }
    }

    /// Every rating is stored under its own transaction and type, in a
    /// registered context, and is listed in the transaction list of its
    /// context and in that of its entity, which has a value on record.
    pub open spec fn ratings_indexed(self) -> bool {
        forall|context: ContextId, tx: TransactionId, ty: EntityType| #[trigger]
            self.rated(context, tx, ty) ==> {
                &&& self.ratings[(context, tx, ty)].transaction_id == tx
                &&& self.ratings[(context, tx, ty)].entity_type == ty
                &&& self.owners.contains_key(context)
                &&& self.transactions_in(context).contains(tx)
                &&& self.transactions_for_entity(
                    context,
                    self.ratings[(context, tx, ty)].entity_id,
                ).contains(tx)
                &&& self.values_of(context, self.ratings[(context, tx, ty)].entity_id).len() > 0
            }
    }

    /// Every transaction listed for a context holds a rating.
    pub open spec fn transactions_backed(self) -> bool {
        forall|context: ContextId, tx: TransactionId| #[trigger]
            self.transactions_in(context).contains(tx) ==> self.transaction_rated(context, tx)
    }

    /// Every transaction listed for an entity holds a rating about it.
    pub open spec fn entity_index_backed(self) -> bool {
        forall|context: ContextId, entity: EntityId, tx: TransactionId| #[trigger]
            self.transactions_for_entity(context, entity).contains(tx) ==> self.entity_rated_in(
                context,
                entity,
                tx,
            )
    }

    /// No list names a transaction or a child type twice.
    pub open spec fn lists_unique(self) -> bool {
        &&& forall|context: ContextId| #[trigger] self.transactions_in(context).no_duplicates()
        &&& forall|context: ContextId, entity: EntityId| #[trigger]
            self.transactions_for_entity(context, entity).no_duplicates()
        &&& forall|context: ContextId, parent: EntityType| #[trigger]
            self.children_of(context, parent).no_duplicates()
    }

    /// The consistency of the indexes with the stored ratings: the ratings are
    /// indexed, the indexes list nothing else and nothing twice, and only
    /// finitely many ratings are stored.
    pub open spec fn wf(self) -> bool {
        &&& self.ratings.dom().finite()
        &&& self.ratings_indexed()
        &&& self.transactions_backed()
        &&& self.entity_index_backed()
        &&& self.lists_unique()
    }

    /// The state after `caller` registered `context`.
    pub open spec fn with_context(self, context: ContextId, caller: Address) -> LedgerState {
        LedgerState { owners: self.owners.insert(context, caller), ..self }
    }

    /// The state after `child` was recorded as feeding `parent`.
    pub open spec fn with_relation(
        self,
        context: ContextId,
        child: EntityType,
        parent: EntityType,
    ) -> LedgerState {
        LedgerState {
            relations: self.relations.insert(
                (context, parent),
                inserted_once(self.children_of(context, parent), child),
            ),
            ..self
        }
    }

    /// Whether `caller` may submit `rating` into `context`: the ownership
    /// guard comes first, then the rule that a transaction holds one rating
    /// per entity type.
    pub open spec fn submit_check(self, caller: Address, context: ContextId, rating: Rating)
        -> Result<(), Error> {
        match owner_check(self.owners, context, caller) {
            Err(e) => Err(e),
            Ok(_) => if self.rated(context, rating.transaction_id, rating.entity_type) {
                Err(Error::TransactionAlreadyRated)
            } else {
                Ok(())
            },
        }
    }

    /// The state after `rating` was stored in `context`: the record under its
    /// key, its transaction in the list of the context and in that of its
    /// entity, and its value at the end of the values of its entity.
    pub open spec fn with_rating(self, context: ContextId, rating: Rating) -> LedgerState {
        LedgerState {
            transactions: self.transactions.insert(
                context,
                inserted_once(self.transactions_in(context), rating.transaction_id),
            ),
            ratings: self.ratings.insert(
                (context, rating.transaction_id, rating.entity_type),
                rating,
            ),
            entity_transactions: self.entity_transactions.insert(
                (context, rating.entity_id),
                inserted_once(
                    self.transactions_for_entity(context, rating.entity_id),
                    rating.transaction_id,
                ),
            ),
            entity_values: self.entity_values.insert(
                (context, rating.entity_id),
                self.values_of(context, rating.entity_id).push(rating.rating),
            ),
            ..self
        }
    }

    /// The state after `caller` tried to submit `rating`: changed where the
    /// submission is admitted, the same where it is refused.
    pub open spec fn submitted(self, caller: Address, context: ContextId, rating: Rating)
        -> LedgerState {
        if self.submit_check(caller, context, rating) is Ok {
            self.with_rating(context, rating)
        } else {
            self
        }
    }

    /// The state after the score of `entity` was recomputed from its values.
    pub open spec fn with_score(self, context: ContextId, entity: EntityId) -> LedgerState {
        LedgerState {
            scores: self.scores.insert(
                (context, entity),
                mean(self.values_of(context, entity)) as Score,
            ),
            ..self
        }
    }

    /// The notification that the score of `entity` was recomputed from the
    /// values that this state holds.
    pub open spec fn score_notice(
        self,
        context: ContextId,
        entity: EntityId,
        entity_type: EntityType,
        timestamp: Timestamp,
    ) -> ScoreUpdated {
        ScoreUpdated {
            context,
            entity_id: entity,
            timestamp,
            entity_type,
            score: mean(self.values_of(context, entity)) as Score,
        }
    }

    /// The notifications of a submission by `caller`: one where the rating is
    /// admitted, none where it is refused.
    pub open spec fn submission_notices(self, caller: Address, context: ContextId, rating: Rating)
        -> Seq<Notification> {
        if self.submit_check(caller, context, rating) is Ok {
            seq![Notification::Rating(rating_notice(context, rating))]
        } else {
            Seq::empty()
        }
    }

    /// The notifications of a score update by `caller`: one where the caller
    /// owns the context, none where the update is refused.
    pub open spec fn rescoring_notices(
        self,
        caller: Address,
        context: ContextId,
        entity: EntityId,
        entity_type: EntityType,
        timestamp: Timestamp,
    ) -> Seq<Notification> {
        if owner_check(self.owners, context, caller) is Ok {
            seq![Notification::Score(self.score_notice(context, entity, entity_type, timestamp))]
        } else {
            Seq::empty()
        }
    }

    /// The state after `caller` tried to have the score of `entity`
    /// recomputed.
    pub open spec fn rescored(self, caller: Address, context: ContextId, entity: EntityId)
        -> LedgerState {
        if owner_check(self.owners, context, caller) is Ok {
            self.with_score(context, entity)
        } else {
            self
        }
    }

    /// The ratings of one transaction: for each requested type, in the order
    /// requested, the rating stored for it or `None`.
    pub open spec fn ratings_for_transaction(
        self,
        context: ContextId,
        tx: TransactionId,
        types: Seq<EntityType>,
    ) -> Seq<Option<Rating>> {
        Seq::new(types.len(), |i: int| self.ratings.get((context, tx, types[i])))
    }

    /// For each of `txs`, in order, the transaction and its ratings of the
    /// requested types.
    pub open spec fn ratings_for_transactions(
        self,
        context: ContextId,
        txs: Seq<TransactionId>,
        types: Seq<EntityType>,
    ) -> Seq<(TransactionId, Seq<Option<Rating>>)> {
        Seq::new(
            txs.len(),
            |i: int| (txs[i], self.ratings_for_transaction(context, txs[i], types)),
        )
    }

    /// The ratings of every transaction that holds a rating about `entity`.
    pub open spec fn ratings_for_entity(
        self,
        context: ContextId,
        entity: EntityId,
        types: Seq<EntityType>,
    ) -> Seq<(TransactionId, Seq<Option<Rating>>)> {
        self.ratings_for_transactions(context, self.transactions_for_entity(context, entity), types)
    }

    /// The ratings of every transaction of the context.
    pub open spec fn all_ratings(self, context: ContextId, types: Seq<EntityType>) -> Seq<
        (TransactionId, Seq<Option<Rating>>),
    > {
        self.ratings_for_transactions(context, self.transactions_in(context), types)
    }
}

/// The empty ledger is consistent.
pub proof fn lemma_empty_wf()
    ensures
        LedgerState::empty().wf(),
{
}

/// Registering a context keeps the ledger consistent.
pub proof fn lemma_with_context_wf(s: LedgerState, context: ContextId, caller: Address)
    requires
        s.wf(),
    ensures
        s.with_context(context, caller).wf(),
{
    let t = s.with_context(context, caller);
    assert(t.ratings_indexed()) by {
        assert forall|c: ContextId, tx: TransactionId, ty: EntityType| #[trigger]
            t.rated(c, tx, ty) implies {
            &&& t.ratings[(c, tx, ty)].transaction_id == tx
            &&& t.ratings[(c, tx, ty)].entity_type == ty
            &&& t.owners.contains_key(c)
            &&& t.transactions_in(c).contains(tx)
            &&& t.transactions_for_entity(c, t.ratings[(c, tx, ty)].entity_id).contains(tx)
            &&& t.values_of(c, t.ratings[(c, tx, ty)].entity_id).len() > 0
        } by {
            assert(s.rated(c, tx, ty));
        }
    }
    assert(t.transactions_backed()) by {
        assert forall|c: ContextId, tx: TransactionId| #[trigger]
            t.transactions_in(c).contains(tx) implies t.transaction_rated(c, tx) by {
            assert(s.transactions_in(c).contains(tx));
            let ty = choose|ty: EntityType| s.rated(c, tx, ty);
            assert(t.rated(c, tx, ty));
        }
    }
    assert(t.entity_index_backed()) by {
        assert forall|c: ContextId, e: EntityId, tx: TransactionId| #[trigger]
            t.transactions_for_entity(c, e).contains(tx) implies t.entity_rated_in(c, e, tx) by {
            assert(s.transactions_for_entity(c, e).contains(tx));
            let ty = choose|ty: EntityType| s.rates(c, tx, ty, e);
            assert(t.rates(c, tx, ty, e));
        }
    }
    assert(t.lists_unique()) by {
        assert forall|c: ContextId| #[trigger] t.transactions_in(c).no_duplicates() by {
            assert(s.transactions_in(c).no_duplicates());
        }
        assert forall|c: ContextId, e: EntityId| #[trigger]
            t.transactions_for_entity(c, e).no_duplicates() by {
            assert(s.transactions_for_entity(c, e).no_duplicates());
        }
        assert forall|c: ContextId, p: EntityType| #[trigger]
            t.children_of(c, p).no_duplicates() by {
            assert(s.children_of(c, p).no_duplicates());
        }
    }
}

/// What inserting once does to a list: the element is in it afterwards,
/// nothing else comes or goes, and a list without repetitions stays so.
pub proof fn lemma_inserted_once<T>(list: Seq<T>, x: T)
    ensures
        inserted_once(list, x).contains(x),
        forall|y: T| list.contains(y) ==> #[trigger] inserted_once(list, x).contains(y),
        forall|y: T| #[trigger] inserted_once(list, x).contains(y) ==> y == x || list.contains(y),
        list.no_duplicates() ==> inserted_once(list, x).no_duplicates(),
        inserted_once(list, x).len() == list.len() + (if list.contains(x) {
            0int
        } else {
            1int
        }),
{
    let out = inserted_once(list, x);
    if !list.contains(x) {
        assert(out[list.len() as int] == x);
        assert forall|y: T| list.contains(y) implies #[trigger] out.contains(y) by {
            let i = choose|i: int| 0 <= i < list.len() && list[i] == y;
            assert(out[i] == y);
        }
        assert forall|y: T| #[trigger] out.contains(y) implies y == x || list.contains(y) by {
            let i = choose|i: int| 0 <= i < out.len() && out[i] == y;
            if i < list.len() {
                assert(list[i] == y);
            }
        }
        if list.no_duplicates() {
            assert forall|i: int, j: int| 0 <= i < out.len() && 0 <= j < out.len() && i != j implies out[i]
                != out[j] by {
                if i < list.len() && j < list.len() {
                } else if i < list.len() {
                    assert(list.contains(list[i]));
                } else if j < list.len() {
                    assert(list.contains(list[j]));
                }
            }
        }
    }
}

/// Recording a relation keeps the ledger consistent.
pub proof fn lemma_with_relation_wf(
    s: LedgerState,
    context: ContextId,
    child: EntityType,
    parent: EntityType,
)
    requires
        s.wf(),
    ensures
        s.with_relation(context, child, parent).wf(),
{
    let t = s.with_relation(context, child, parent);
    assert(t.ratings_indexed()) by {
        assert forall|c: ContextId, tx: TransactionId, ty: EntityType| #[trigger]
            t.rated(c, tx, ty) implies {
            &&& t.ratings[(c, tx, ty)].transaction_id == tx
            &&& t.ratings[(c, tx, ty)].entity_type == ty
            &&& t.owners.contains_key(c)
            &&& t.transactions_in(c).contains(tx)
            &&& t.transactions_for_entity(c, t.ratings[(c, tx, ty)].entity_id).contains(tx)
            &&& t.values_of(c, t.ratings[(c, tx, ty)].entity_id).len() > 0
        } by {
            assert(s.rated(c, tx, ty));
        }
    }
    assert(t.transactions_backed()) by {
        assert forall|c: ContextId, tx: TransactionId| #[trigger]
            t.transactions_in(c).contains(tx) implies t.transaction_rated(c, tx) by {
            assert(s.transactions_in(c).contains(tx));
            let ty = choose|ty: EntityType| s.rated(c, tx, ty);
            assert(t.rated(c, tx, ty));
        }
    }
    assert(t.entity_index_backed()) by {
        assert forall|c: ContextId, e: EntityId, tx: TransactionId| #[trigger]
            t.transactions_for_entity(c, e).contains(tx) implies t.entity_rated_in(c, e, tx) by {
            assert(s.transactions_for_entity(c, e).contains(tx));
            let ty = choose|ty: EntityType| s.rates(c, tx, ty, e);
            assert(t.rates(c, tx, ty, e));
        }
    }
    assert(t.lists_unique()) by {
        assert forall|c: ContextId| #[trigger] t.transactions_in(c).no_duplicates() by {
            assert(s.transactions_in(c).no_duplicates());
        }
        assert forall|c: ContextId, e: EntityId| #[trigger]
            t.transactions_for_entity(c, e).no_duplicates() by {
            assert(s.transactions_for_entity(c, e).no_duplicates());
        }
        assert forall|c: ContextId, p: EntityType| #[trigger]
            t.children_of(c, p).no_duplicates() by {
            assert(s.children_of(c, p).no_duplicates());
            lemma_inserted_once(s.children_of(context, parent), child);
        }
    }
}

/// Recomputing a score keeps the ledger consistent.
pub proof fn lemma_with_score_wf(s: LedgerState, context: ContextId, entity: EntityId)
    requires
        s.wf(),
    ensures
        s.with_score(context, entity).wf(),
{
    let t = s.with_score(context, entity);
    assert(t.ratings_indexed()) by {
        assert forall|c: ContextId, tx: TransactionId, ty: EntityType| #[trigger]
            t.rated(c, tx, ty) implies {
            &&& t.ratings[(c, tx, ty)].transaction_id == tx
            &&& t.ratings[(c, tx, ty)].entity_type == ty
            &&& t.owners.contains_key(c)
            &&& t.transactions_in(c).contains(tx)
            &&& t.transactions_for_entity(c, t.ratings[(c, tx, ty)].entity_id).contains(tx)
            &&& t.values_of(c, t.ratings[(c, tx, ty)].entity_id).len() > 0
        } by {
            assert(s.rated(c, tx, ty));
        }
    }
    assert(t.transactions_backed()) by {
        assert forall|c: ContextId, tx: TransactionId| #[trigger]
            t.transactions_in(c).contains(tx) implies t.transaction_rated(c, tx) by {
            assert(s.transactions_in(c).contains(tx));
            let ty = choose|ty: EntityType| s.rated(c, tx, ty);
            assert(t.rated(c, tx, ty));
        }
    }
    assert(t.entity_index_backed()) by {
        assert forall|c: ContextId, e: EntityId, tx: TransactionId| #[trigger]
            t.transactions_for_entity(c, e).contains(tx) implies t.entity_rated_in(c, e, tx) by {
            assert(s.transactions_for_entity(c, e).contains(tx));
            let ty = choose|ty: EntityType| s.rates(c, tx, ty, e);
            assert(t.rates(c, tx, ty, e));
        }
    }
    assert(t.lists_unique()) by {
        assert forall|c: ContextId| #[trigger] t.transactions_in(c).no_duplicates() by {
            assert(s.transactions_in(c).no_duplicates());
        }
        assert forall|c: ContextId, e: EntityId| #[trigger]
            t.transactions_for_entity(c, e).no_duplicates() by {
            assert(s.transactions_for_entity(c, e).no_duplicates());
        }
        assert forall|c: ContextId, p: EntityType| #[trigger]
            t.children_of(c, p).no_duplicates() by {
            assert(s.children_of(c, p).no_duplicates());
        }
    }
}

/// Storing a rating that was admitted keeps the ledger consistent.
pub proof fn lemma_with_rating_wf(s: LedgerState, caller: Address, context: ContextId, rating: Rating)
    requires
        s.wf(),
        s.submit_check(caller, context, rating) is Ok,
    ensures
        s.with_rating(context, rating).wf(),
{
    let t = s.with_rating(context, rating);
    let tx0 = rating.transaction_id;
    let ty0 = rating.entity_type;
    let e0 = rating.entity_id;
    lemma_inserted_once(s.transactions_in(context), tx0);
    lemma_inserted_once(s.transactions_for_entity(context, e0), tx0);
    assert(!s.rated(context, tx0, ty0));
    assert(t.rated(context, tx0, ty0));
    assert(t.rates(context, tx0, ty0, e0));
    assert(t.ratings_indexed()) by {
        assert forall|c: ContextId, tx: TransactionId, ty: EntityType| #[trigger]
            t.rated(c, tx, ty) implies {
            &&& t.ratings[(c, tx, ty)].transaction_id == tx
            &&& t.ratings[(c, tx, ty)].entity_type == ty
            &&& t.owners.contains_key(c)
            &&& t.transactions_in(c).contains(tx)
            &&& t.transactions_for_entity(c, t.ratings[(c, tx, ty)].entity_id).contains(tx)
            &&& t.values_of(c, t.ratings[(c, tx, ty)].entity_id).len() > 0
        } by {
            if (c, tx, ty) != (context, tx0, ty0) {
                assert(s.rated(c, tx, ty));
            }
        }
    }
    assert(t.transactions_backed()) by {
        assert forall|c: ContextId, tx: TransactionId| #[trigger]
            t.transactions_in(c).contains(tx) implies t.transaction_rated(c, tx) by {
            if c == context && tx == tx0 {
            } else {
                assert(s.transactions_in(c).contains(tx));
                let ty = choose|ty: EntityType| s.rated(c, tx, ty);
                assert(t.rated(c, tx, ty));
            }
        }
    }
    assert(t.entity_index_backed()) by {
        assert forall|c: ContextId, e: EntityId, tx: TransactionId| #[trigger]
            t.transactions_for_entity(c, e).contains(tx) implies t.entity_rated_in(c, e, tx) by {
            if c == context && e == e0 && tx == tx0 {
            } else {
                assert(s.transactions_for_entity(c, e).contains(tx));
                let ty = choose|ty: EntityType| s.rates(c, tx, ty, e);
                assert(t.rates(c, tx, ty, e));
            }
        }
    }
    assert(t.lists_unique()) by {
        assert forall|c: ContextId| #[trigger] t.transactions_in(c).no_duplicates() by {
            assert(s.transactions_in(c).no_duplicates());
        }
        assert forall|c: ContextId, e: EntityId| #[trigger]
            t.transactions_for_entity(c, e).no_duplicates() by {
            assert(s.transactions_for_entity(c, e).no_duplicates());
        }
        assert forall|c: ContextId, p: EntityType| #[trigger]
            t.children_of(c, p).no_duplicates() by {
            assert(s.children_of(c, p).no_duplicates());
        }
    }
}

} // verus!

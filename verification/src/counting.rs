//! What the queries of the ledger add up to.
//!
//! The index by entity lists each transaction once for each entity that it
//! rates, and a query for all ratings of a context returns each stored rating
//! once. Both are proved here of every consistent ledger.

use crate::state::LedgerState;
use crate::types::{ContextId, EntityId, EntityType, Rating, TransactionId};
use vstd::prelude::*;
use vstd::relations::injective_on;
use vstd::seq_lib::seq_to_set_is_finite;
use vstd::set_lib::{lemma_map_size, lemma_set_disjoint_lens};

verus! {

/// The number of entity ids.
pub open spec fn entity_ids() -> nat {
    256
}

/// The lengths of the transaction lists of the entities below `bound`, added
/// up.
pub open spec fn index_entries(s: LedgerState, context: ContextId, bound: nat) -> nat
    decreases bound,
{
    if bound == 0 {
        0
    } else {
        index_entries(s, context, (bound - 1) as nat) + s.transactions_for_entity(
            context,
            (bound - 1) as EntityId,
        ).len()
    }
}

/// The pairs of an entity and a transaction that holds a rating about it.
pub open spec fn rated_pairs(s: LedgerState, context: ContextId) -> Set<
    (EntityId, TransactionId),
> {
    Set::new(|p: (EntityId, TransactionId)| s.entity_rated_in(context, p.0, p.1))
}

/// The pairs of `rated_pairs` whose entity is below `bound`.
pub open spec fn rated_pairs_below(s: LedgerState, context: ContextId, bound: nat) -> Set<
    (EntityId, TransactionId),
> {
    Set::new(
        |p: (EntityId, TransactionId)| (p.0 as nat) < bound && s.entity_rated_in(context, p.0, p.1),
    )
}

/// The transactions and entity types for which a context stores a rating.
pub open spec fn rating_keys(s: LedgerState, context: ContextId) -> Set<
    (TransactionId, EntityType),
> {
    Set::new(|k: (TransactionId, EntityType)| s.rated(context, k.0, k.1))
}

/// How many of the slots hold a rating.
pub open spec fn present(slots: Seq<Option<Rating>>) -> nat
    decreases slots.len(),
{
    if slots.len() == 0 {
        0
    } else {
        present(slots.drop_last()) + (if slots.last() is Some {
            1nat
        } else {
            0nat
        })
    }
}

/// How many ratings the rows of a query hold altogether.
pub open spec fn present_in_rows(rows: Seq<(TransactionId, Seq<Option<Rating>>)>) -> nat
    decreases rows.len(),
{
    if rows.len() == 0 {
        0
    } else {
        present_in_rows(rows.drop_last()) + present(rows.last().1)
    }
}

/// The ratings of transaction `tx` whose type is among `types`.
spec fn keys_of_transaction(
    s: LedgerState,
    context: ContextId,
    tx: TransactionId,
    types: Seq<EntityType>,
) -> Set<(TransactionId, EntityType)> {
    Set::new(
        |k: (TransactionId, EntityType)| k.0 == tx && types.contains(k.1) && s.rated(context, tx, k.1),
    )
}

/// The ratings of the transactions `txs` whose type is among `types`.
spec fn keys_of_transactions(
    s: LedgerState,
    context: ContextId,
    txs: Seq<TransactionId>,
    types: Seq<EntityType>,
) -> Set<(TransactionId, EntityType)> {
    Set::new(
        |k: (TransactionId, EntityType)|
            txs.contains(k.0) && types.contains(k.1) && s.rated(context, k.0, k.1),
    )
}

proof fn lemma_pairs_below(s: LedgerState, context: ContextId, bound: nat)
    requires
        s.wf(),
        bound <= entity_ids(),
    ensures
        rated_pairs_below(s, context, bound).finite(),
        rated_pairs_below(s, context, bound).len() == index_entries(s, context, bound),
    decreases bound,
{
    let cur = rated_pairs_below(s, context, bound);
    if bound == 0 {
        assert(cur =~= Set::<(EntityId, TransactionId)>::empty());
    } else {
        let e = (bound - 1) as EntityId;
        let prev = rated_pairs_below(s, context, (bound - 1) as nat);
        lemma_pairs_below(s, context, (bound - 1) as nat);
        let list = s.transactions_for_entity(context, e);
        let f = |tx: TransactionId| (e, tx);
        let img = list.to_set().map(f);
        seq_to_set_is_finite(list);
        list.unique_seq_to_set();
        assert(injective_on(f, list.to_set()));
        lemma_map_size(list.to_set(), img, f);
        assert forall|p: (EntityId, TransactionId)| cur.contains(p) implies (prev + img).contains(
            p,
        ) by {
            if p.0 as nat == bound - 1 {
                let ty = choose|ty: EntityType| s.rates(context, p.1, ty, p.0);
                assert(s.rated(context, p.1, ty));
                assert(list.contains(p.1));
                assert(list.to_set().contains(p.1));
                assert(f(p.1) == p);
            }
        }
        assert forall|p: (EntityId, TransactionId)| (prev + img).contains(p) implies cur.contains(
            p,
        ) by {
            if img.contains(p) {
                let tx = choose|tx: TransactionId| list.to_set().contains(tx) && p == f(tx);
                assert(list.contains(tx));
                assert(s.entity_rated_in(context, e, tx));
            }
        }
        assert(cur =~= prev + img);
        assert(prev.disjoint(img)) by {
            assert forall|p: (EntityId, TransactionId)| !(prev.contains(p) && img.contains(p)) by {
                if img.contains(p) {
                    let tx = choose|tx: TransactionId| list.to_set().contains(tx) && p == f(tx);
                }
            }
        }
        lemma_set_disjoint_lens(prev, img);
    }
}

/// The index by entity lists each rated pair once: over all entities of a
/// context, the lengths of their transaction lists add up to the number of
/// pairs of an entity and a transaction that holds a rating about it.
pub proof fn lemma_entity_index_counts_rated_pairs(s: LedgerState, context: ContextId)
    requires
        s.wf(),
    ensures
        rated_pairs(s, context).finite(),
        index_entries(s, context, entity_ids()) == rated_pairs(s, context).len(),
{
    lemma_pairs_below(s, context, entity_ids());
    assert(rated_pairs(s, context) =~= rated_pairs_below(s, context, entity_ids()));
}

proof fn lemma_keys_of_transaction(
    s: LedgerState,
    context: ContextId,
    tx: TransactionId,
    types: Seq<EntityType>,
)
    requires
        types.no_duplicates(),
    ensures
        keys_of_transaction(s, context, tx, types).finite(),
        keys_of_transaction(s, context, tx, types).len() == present(
            s.ratings_for_transaction(context, tx, types),
        ),
    decreases types.len(),
{
    let cur = keys_of_transaction(s, context, tx, types);
    if types.len() == 0 {
        assert(cur =~= Set::<(TransactionId, EntityType)>::empty());
    } else {
        let front = types.drop_last();
        let ty = types.last();
        let prev = keys_of_transaction(s, context, tx, front);
        lemma_keys_of_transaction(s, context, tx, front);
        assert(s.ratings_for_transaction(context, tx, types).drop_last()
            =~= s.ratings_for_transaction(context, tx, front));
        assert(s.ratings_for_transaction(context, tx, types).last() == s.ratings.get(
            (context, tx, ty),
        ));
        assert(!front.contains(ty)) by {
            if front.contains(ty) {
                let i = choose|i: int| 0 <= i < front.len() && front[i] == ty;
                assert(types[i] == types[types.len() - 1]);
            }
        }
        assert forall|t: EntityType| types.contains(t) <==> front.contains(t) || t == ty by {
            if types.contains(t) {
                let i = choose|i: int| 0 <= i < types.len() && types[i] == t;
                if i < front.len() {
                    assert(front[i] == t);
                }
            }
            if front.contains(t) {
                let i = choose|i: int| 0 <= i < front.len() && front[i] == t;
                assert(types[i] == t);
            }
            if t == ty {
                assert(types[types.len() - 1] == t);
            }
        }
        if s.rated(context, tx, ty) {
            assert(cur =~= prev.insert((tx, ty)));
            assert(!prev.contains((tx, ty)));
        } else {
            assert(cur =~= prev);
        }
    }
}

proof fn lemma_keys_of_transactions(
    s: LedgerState,
    context: ContextId,
    txs: Seq<TransactionId>,
    types: Seq<EntityType>,
)
    requires
        txs.no_duplicates(),
        types.no_duplicates(),
    ensures
        keys_of_transactions(s, context, txs, types).finite(),
        keys_of_transactions(s, context, txs, types).len() == present_in_rows(
            s.ratings_for_transactions(context, txs, types),
        ),
    decreases txs.len(),
{
    let cur = keys_of_transactions(s, context, txs, types);
    if txs.len() == 0 {
        assert(cur =~= Set::<(TransactionId, EntityType)>::empty());
    } else {
        let front = txs.drop_last();
        let tx = txs.last();
        let prev = keys_of_transactions(s, context, front, types);
        let here = keys_of_transaction(s, context, tx, types);
        lemma_keys_of_transactions(s, context, front, types);
        lemma_keys_of_transaction(s, context, tx, types);
        assert(s.ratings_for_transactions(context, txs, types).drop_last()
            =~= s.ratings_for_transactions(context, front, types));
        assert(s.ratings_for_transactions(context, txs, types).last().1
            == s.ratings_for_transaction(context, tx, types));
        assert(!front.contains(tx)) by {
            if front.contains(tx) {
                let i = choose|i: int| 0 <= i < front.len() && front[i] == tx;
                assert(txs[i] == txs[txs.len() - 1]);
            }
        }
        assert forall|t: TransactionId| txs.contains(t) <==> front.contains(t) || t == tx by {
            if txs.contains(t) {
                let i = choose|i: int| 0 <= i < txs.len() && txs[i] == t;
                if i < front.len() {
                    assert(front[i] == t);
                }
            }
            if front.contains(t) {
                let i = choose|i: int| 0 <= i < front.len() && front[i] == t;
                assert(txs[i] == t);
            }
            if t == tx {
                assert(txs[txs.len() - 1] == t);
            }
        }
        assert(cur =~= prev + here);
        assert(prev.disjoint(here));
        lemma_set_disjoint_lens(prev, here);
    }
}

/// A query for all ratings of a context returns each stored rating once: if
/// the requested types name no type twice and cover every type rated in the
/// context, the rows hold as many ratings as the context stores.
pub proof fn lemma_all_ratings_counts_stored(
    s: LedgerState,
    context: ContextId,
    types: Seq<EntityType>,
)
    requires
        s.wf(),
        types.no_duplicates(),
        forall|tx: TransactionId, ty: EntityType|
            s.rated(context, tx, ty) ==> types.contains(ty),
    ensures
        rating_keys(s, context).finite(),
        present_in_rows(s.all_ratings(context, types)) == rating_keys(s, context).len(),
{
    let txs = s.transactions_in(context);
    assert(txs.no_duplicates());
    lemma_keys_of_transactions(s, context, txs, types);
    assert(rating_keys(s, context) =~= keys_of_transactions(s, context, txs, types));
}

} // verus!

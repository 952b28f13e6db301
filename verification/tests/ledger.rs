use rep_system::ledger::RepSystem;
use rep_system::registry::ContextRegistry;
use rep_system::types::{
    Address, ContextCreated, Error, Rating, RatingSubmitted, ScoreUpdated, NO_RATING,
};

const CTX: u64 = 1;
const OTHER_CTX: u64 = 2;
const SELLER: u8 = 2;
const ARTICLE: u8 = 3;

fn owner() -> Address {
    Address::from_low_u64_be(1)
}

fn stranger() -> Address {
    Address::from_low_u64_be(2)
}

fn rating(tx: u64, entity_id: u8, entity_type: u8, value: u8) -> Rating {
    Rating {
        transaction_id: tx,
        rater: 9,
        entity_id,
        entity_type,
        timestamp: 5,
        rating: value,
        remark: None,
    }
}

fn ledger_with_context() -> RepSystem {
    let mut ledger = RepSystem::new();
    assert_eq!(
        ledger.register_context(CTX, owner(), 3),
        Ok(ContextCreated { context: CTX, owner: owner(), time: 3 })
    );
    ledger
}

fn flat_len(rows: &Vec<(u64, Vec<Option<Rating>>)>) -> usize {
    rows.iter().map(|row| row.1.iter().filter(|slot| slot.is_some()).count()).sum()
}

#[test]
fn registry_registers_once() {
    let mut registry = ContextRegistry::new();
    assert_eq!(registry.get_owner(CTX), None);
    assert!(!registry.is_owner(CTX, owner()));
    assert_eq!(registry.check_owner(CTX, owner()), Err(Error::ContextNotFound));

    assert_eq!(
        registry.register_context(CTX, owner(), 7),
        Ok(ContextCreated { context: CTX, owner: owner(), time: 7 })
    );
    assert_eq!(registry.get_owner(CTX), Some(owner()));
    assert!(registry.is_owner(CTX, owner()));
    assert!(!registry.is_owner(CTX, stranger()));
    assert_eq!(registry.check_owner(CTX, owner()), Ok(()));
    assert_eq!(registry.check_owner(CTX, stranger()), Err(Error::NotOwner));

    assert_eq!(registry.register_context(CTX, stranger(), 8), Err(Error::ContextAlreadyExists));
    assert_eq!(registry.get_owner(CTX), Some(owner()));
}

#[test]
fn context_is_registered_once() {
    let mut ledger = ledger_with_context();
    assert_eq!(ledger.register_context(CTX, stranger(), 4), Err(Error::ContextAlreadyExists));
    assert_eq!(ledger.check_owner(CTX, owner()), Ok(()));
    assert_eq!(ledger.check_owner(CTX, stranger()), Err(Error::NotOwner));
    assert_eq!(ledger.check_owner(OTHER_CTX, owner()), Err(Error::ContextNotFound));
}

#[test]
fn submission_is_stored_indexed_and_notified() {
    let mut ledger = ledger_with_context();
    let mut r = rating(10, 42, SELLER, 90);
    r.remark = Some(String::from("fine"));

    let notice = ledger.submit_rating(CTX, r.clone(), owner());
    assert_eq!(
        notice,
        Ok(RatingSubmitted {
            context: CTX,
            user: 9,
            entity_id: 42,
            timestamp: 5,
            entity_type: SELLER,
            rating: 90,
            remark: Some(String::from("fine")),
        })
    );
    assert_eq!(ledger.get_transactions(CTX), vec![10]);
    assert_eq!(ledger.get_transactions_for_entity(CTX, 42), vec![10]);
    assert_eq!(ledger.get_values_for_entity(CTX, 42), vec![90]);
    assert_eq!(
        ledger.get_ratings_for_transaction(CTX, 10, &vec![SELLER]),
        vec![Some(r)]
    );
    assert!(ledger.has_values(CTX, 42));
    assert!(!ledger.has_values(CTX, 41));
    assert!(!ledger.has_values(OTHER_CTX, 42));
    assert!(ledger.is_rated(CTX, 10, SELLER));
    assert!(!ledger.is_rated(CTX, 10, ARTICLE));
    assert!(!ledger.is_rated(CTX, 11, SELLER));
    assert!(!ledger.is_rated(OTHER_CTX, 10, SELLER));
}

#[test]
fn score_follows_the_mean_of_the_values() {
    let mut ledger = ledger_with_context();
    assert_eq!(ledger.get_score(CTX, 42), NO_RATING);

    ledger.submit_rating(CTX, rating(1, 42, SELLER, 90), owner()).unwrap();
    assert_eq!(ledger.get_score(CTX, 42), NO_RATING);
    assert_eq!(
        ledger.update_score(CTX, 42, SELLER, 0, owner(), 11),
        Ok(ScoreUpdated { context: CTX, entity_id: 42, timestamp: 11, entity_type: SELLER, score: 90 })
    );
    assert_eq!(ledger.get_score(CTX, 42), 90);

    ledger.submit_rating(CTX, rating(2, 42, SELLER, 30), owner()).unwrap();
    assert_eq!(ledger.get_score(CTX, 42), 90);
    ledger.update_score(CTX, 42, SELLER, 0, owner(), 12).unwrap();
    assert_eq!(ledger.get_score(CTX, 42), 60);
}

#[test]
fn score_is_rounded_down_and_counts_equal_values() {
    let mut ledger = ledger_with_context();
    ledger.submit_rating(CTX, rating(1, 7, SELLER, 100), owner()).unwrap();
    ledger.submit_rating(CTX, rating(2, 7, SELLER, 100), owner()).unwrap();
    ledger.submit_rating(CTX, rating(3, 7, SELLER, 0), owner()).unwrap();
    assert_eq!(ledger.get_values_for_entity(CTX, 7), vec![100, 100, 0]);
    ledger.update_score(CTX, 7, SELLER, 0, owner(), 1).unwrap();
    assert_eq!(ledger.get_score(CTX, 7), 66);
}

#[test]
fn second_submission_for_a_key_is_refused() {
    let mut ledger = ledger_with_context();
    let first = rating(1, 42, SELLER, 90);
    ledger.submit_rating(CTX, first.clone(), owner()).unwrap();
    ledger.update_score(CTX, 42, SELLER, 0, owner(), 1).unwrap();

    let second = rating(1, 43, SELLER, 10);
    assert_eq!(
        ledger.submit_rating(CTX, second, owner()),
        Err(Error::TransactionAlreadyRated)
    );
    assert_eq!(
        ledger.get_ratings_for_transaction(CTX, 1, &vec![SELLER]),
        vec![Some(first)]
    );
    assert_eq!(ledger.get_transactions(CTX), vec![1]);
    assert_eq!(ledger.get_transactions_for_entity(CTX, 42), vec![1]);
    assert_eq!(ledger.get_transactions_for_entity(CTX, 43), Vec::<u64>::new());
    assert_eq!(ledger.get_values_for_entity(CTX, 42), vec![90]);
    assert_eq!(ledger.get_values_for_entity(CTX, 43), Vec::<u8>::new());
    assert_eq!(ledger.get_score(CTX, 42), 90);
}

#[test]
fn only_the_owner_writes() {
    let mut ledger = ledger_with_context();
    ledger.submit_rating(CTX, rating(1, 42, SELLER, 90), owner()).unwrap();
    ledger.update_score(CTX, 42, SELLER, 0, owner(), 1).unwrap();

    assert_eq!(
        ledger.submit_rating(CTX, rating(2, 42, SELLER, 10), stranger()),
        Err(Error::NotOwner)
    );
    assert_eq!(
        ledger.update_score(CTX, 42, SELLER, 0, stranger(), 2),
        Err(Error::NotOwner)
    );
    assert_eq!(
        ledger.submit_rating(OTHER_CTX, rating(2, 42, SELLER, 10), owner()),
        Err(Error::ContextNotFound)
    );
    assert_eq!(
        ledger.update_score(OTHER_CTX, 42, SELLER, 0, owner(), 2),
        Err(Error::ContextNotFound)
    );

    assert_eq!(ledger.get_transactions(CTX), vec![1]);
    assert_eq!(ledger.get_transactions(OTHER_CTX), Vec::<u64>::new());
    assert_eq!(ledger.get_values_for_entity(CTX, 42), vec![90]);
    assert_eq!(ledger.get_score(CTX, 42), 90);
    assert_eq!(ledger.get_score(OTHER_CTX, 42), NO_RATING);
}

#[test]
fn ownership_comes_before_uniqueness() {
    let mut ledger = ledger_with_context();
    ledger.submit_rating(CTX, rating(1, 42, SELLER, 90), owner()).unwrap();
    assert_eq!(
        ledger.submit_rating(CTX, rating(1, 42, SELLER, 90), stranger()),
        Err(Error::NotOwner)
    );
}

#[test]
fn relation_is_inserted_once() {
    let mut ledger = RepSystem::new();
    ledger.insert_relation(CTX, 3, 5);
    assert_eq!(ledger.get_relations(CTX, 5), vec![3]);
    ledger.insert_relation(CTX, 3, 5);
    assert_eq!(ledger.get_relations(CTX, 5), vec![3]);
    ledger.insert_relation(CTX, 4, 5);
    ledger.insert_relation(CTX, 3, 5);
    assert_eq!(ledger.get_relations(CTX, 5), vec![3, 4]);
    assert_eq!(ledger.get_relations(CTX, 3), Vec::<u8>::new());
    assert_eq!(ledger.get_relations(OTHER_CTX, 5), Vec::<u8>::new());
}

#[test]
fn transaction_is_listed_once_per_entity_and_context() {
    let mut ledger = ledger_with_context();
    ledger.submit_rating(CTX, rating(1, 42, SELLER, 90), owner()).unwrap();
    ledger.submit_rating(CTX, rating(1, 42, ARTICLE, 50), owner()).unwrap();
    assert_eq!(ledger.get_transactions(CTX), vec![1]);
    assert_eq!(ledger.get_transactions_for_entity(CTX, 42), vec![1]);
    assert_eq!(ledger.get_values_for_entity(CTX, 42), vec![90, 50]);
}

#[test]
fn queries_add_up_to_what_was_submitted() {
    let mut ledger = ledger_with_context();
    // Five ratings in three transactions about three entities.
    ledger.submit_rating(CTX, rating(1, 42, SELLER, 90), owner()).unwrap();
    ledger.submit_rating(CTX, rating(1, 7, ARTICLE, 80), owner()).unwrap();
    ledger.submit_rating(CTX, rating(2, 42, SELLER, 70), owner()).unwrap();
    ledger.submit_rating(CTX, rating(2, 8, ARTICLE, 60), owner()).unwrap();
    ledger.submit_rating(CTX, rating(3, 42, ARTICLE, 50), owner()).unwrap();

    let mut listed = 0;
    for entity in 0..=255u8 {
        listed += ledger.get_transactions_for_entity(CTX, entity).len();
    }
    assert_eq!(listed, 5);

    let all_types: Vec<u8> = (0..=255u8).collect();
    let rows = ledger.get_ratings(CTX, &all_types);
    assert_eq!(rows.len(), 3);
    assert_eq!(flat_len(&rows), 5);

    let rows = ledger.get_ratings(CTX, &vec![SELLER, ARTICLE]);
    assert_eq!(flat_len(&rows), 5);
    let rows = ledger.get_ratings(CTX, &vec![SELLER]);
    assert_eq!(flat_len(&rows), 2);
}

#[test]
fn missing_rating_is_an_empty_slot() {
    let mut ledger = ledger_with_context();
    let r = rating(1, 42, SELLER, 90);
    ledger.submit_rating(CTX, r.clone(), owner()).unwrap();
    assert_eq!(
        ledger.get_ratings_for_transaction(CTX, 1, &vec![ARTICLE, SELLER, SELLER]),
        vec![None, Some(r.clone()), Some(r)]
    );
    assert_eq!(ledger.get_ratings_for_transaction(CTX, 2, &vec![SELLER]), vec![None]);
    assert_eq!(ledger.get_ratings_for_transaction(CTX, 1, &vec![]), vec![]);
}

#[test]
fn entities_and_contexts_are_isolated() {
    let mut ledger = ledger_with_context();
    ledger.register_context(OTHER_CTX, stranger(), 4).unwrap();

    let a = rating(1, 10, SELLER, 90);
    let b = rating(2, 20, SELLER, 30);
    let c = rating(1, 10, SELLER, 55);
    ledger.submit_rating(CTX, a.clone(), owner()).unwrap();
    ledger.submit_rating(CTX, b.clone(), owner()).unwrap();
    ledger.submit_rating(OTHER_CTX, c.clone(), stranger()).unwrap();

    let types = vec![SELLER];
    assert_eq!(ledger.get_ratings_for_entity(CTX, 10, &types), vec![(1, vec![Some(a.clone())])]);
    assert_eq!(ledger.get_ratings_for_entity(CTX, 20, &types), vec![(2, vec![Some(b.clone())])]);
    assert_eq!(ledger.get_ratings_for_entity(CTX, 30, &types), vec![]);
    assert_eq!(
        ledger.get_ratings_for_entity(OTHER_CTX, 10, &types),
        vec![(1, vec![Some(c.clone())])]
    );
    assert_eq!(ledger.get_ratings_for_entity(OTHER_CTX, 20, &types), vec![]);

    assert_eq!(
        ledger.get_ratings(CTX, &types),
        vec![(1, vec![Some(a)]), (2, vec![Some(b)])]
    );
    assert_eq!(ledger.get_ratings(OTHER_CTX, &types), vec![(1, vec![Some(c)])]);
    assert_eq!(ledger.get_ratings(3, &types), vec![]);

    ledger.update_score(CTX, 10, SELLER, 0, owner(), 1).unwrap();
    assert_eq!(ledger.get_score(CTX, 10), 90);
    assert_eq!(ledger.get_score(CTX, 20), NO_RATING);
    assert_eq!(ledger.get_score(OTHER_CTX, 10), NO_RATING);
}

#[test]
fn transactions_with_large_ids_are_kept_apart() {
    let mut ledger = RepSystem::new();
    ledger.register_context(u64::MAX, owner(), 0).unwrap();
    ledger.register_context(0, owner(), 0).unwrap();
    let r = rating(u64::MAX, 255, 255, 255);
    ledger.submit_rating(u64::MAX, r.clone(), owner()).unwrap();
    assert_eq!(
        ledger.get_ratings_for_transaction(u64::MAX, u64::MAX, &vec![255]),
        vec![Some(r)]
    );
    assert_eq!(ledger.get_ratings_for_transaction(0, u64::MAX, &vec![255]), vec![None]);
    assert_eq!(ledger.get_ratings_for_transaction(u64::MAX, 0, &vec![255]), vec![None]);
    assert_eq!(ledger.get_transactions_for_entity(u64::MAX, 255), vec![u64::MAX]);
    assert_eq!(ledger.get_transactions_for_entity(0, 255), Vec::<u64>::new());
}

use rep_system::disputes::{Dispute, DisputeStatus, Disputes};
use rep_system::registry::ContextRegistry;
use rep_system::reputation::{Reputation, Review};
use rep_system::types::Address;

fn owner() -> Address {
    Address::from_low_u64_be(1)
}

fn stranger() -> Address {
    Address::from_low_u64_be(2)
}

fn registry() -> ContextRegistry {
    let mut registry = ContextRegistry::new();
    registry.register_context(1, owner(), 0).unwrap();
    registry
}

#[test]
fn dispute_is_opened_and_judged_once() {
    let registry = registry();
    let mut disputes = Disputes::new();
    assert_eq!(disputes.get_dispute(1, 7), None);
    assert!(disputes.can_open(&registry, 1, 7, owner()));
    assert!(!disputes.can_judge(&registry, 1, 7, owner()));

    disputes.open_dispute(&registry, 1, 7, stranger(), 42, String::from("ipfs://claim"), owner());
    assert_eq!(
        disputes.get_dispute(1, 7),
        Some(Dispute {
            id: 7,
            claimant: stranger(),
            against: 42,
            claim_uri: String::from("ipfs://claim"),
            status: DisputeStatus::Open,
            resolution_uri: None,
        })
    );
    assert!(!disputes.can_open(&registry, 1, 7, owner()));
    assert!(disputes.can_judge(&registry, 1, 7, owner()));

    disputes.provide_judgment(
        &registry,
        1,
        7,
        DisputeStatus::Resolved,
        String::from("ipfs://judgment"),
        owner(),
    );
    assert_eq!(
        disputes.get_dispute(1, 7),
        Some(Dispute {
            id: 7,
            claimant: stranger(),
            against: 42,
            claim_uri: String::from("ipfs://claim"),
            status: DisputeStatus::Resolved,
            resolution_uri: Some(String::from("ipfs://judgment")),
        })
    );
    assert!(!disputes.can_judge(&registry, 1, 7, owner()));
}

#[test]
fn only_the_owner_may_open_or_judge() {
    let registry = registry();
    let mut disputes = Disputes::new();
    assert!(!disputes.can_open(&registry, 1, 7, stranger()));
    assert!(!disputes.can_open(&registry, 2, 7, owner()));
    disputes.open_dispute(&registry, 1, 7, stranger(), 42, String::new(), owner());
    assert!(!disputes.can_judge(&registry, 1, 7, stranger()));
    assert!(!disputes.can_judge(&registry, 2, 7, owner()));
    assert_eq!(disputes.get_dispute(2, 7), None);
    assert_eq!(disputes.get_dispute(1, 8), None);
}

#[test]
fn dispute_status_starts_open() {
    assert_eq!(DisputeStatus::default(), DisputeStatus::Open);
}

#[test]
fn review_is_stored_replaced_and_deleted() {
    let mut store = Reputation::new();
    assert_eq!(store.get_owner(1), None);
    assert!(!store.is_owner(1, owner()));
    store.register_context(1, owner());
    assert_eq!(store.get_owner(1), Some(owner()));
    assert!(store.is_owner(1, owner()));
    assert!(!store.is_owner(1, stranger()));
    assert!(!store.is_owner(2, owner()));

    let author = Address { hi: 3, lo: 4 };
    let other = Address { hi: 4, lo: 4 };
    store.submit_review(
        1,
        author,
        Review { rating: 5, comment_uri: String::from("a") },
        9,
        owner(),
    );
    assert_eq!(
        store.get_review(1, author, 9),
        Some(Review { rating: 5, comment_uri: String::from("a") })
    );
    assert_eq!(store.get_review(1, other, 9), None);
    assert_eq!(store.get_review(1, author, 8), None);
    assert_eq!(store.get_review(2, author, 9), None);

    store.submit_review(
        1,
        author,
        Review { rating: 2, comment_uri: String::from("b") },
        9,
        owner(),
    );
    assert_eq!(
        store.get_review(1, author, 9),
        Some(Review { rating: 2, comment_uri: String::from("b") })
    );

    store.delete_review(1, other, 9, owner());
    assert_eq!(
        store.get_review(1, author, 9),
        Some(Review { rating: 2, comment_uri: String::from("b") })
    );
    store.delete_review(1, author, 9, owner());
    assert_eq!(store.get_review(1, author, 9), None);
}

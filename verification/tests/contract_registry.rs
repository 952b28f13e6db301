use rep_system::contract_registry::{ContractRegistry, NamedContractInfo, PublishedContract};
use rep_system::types::Address;

struct Accounts {
    alice: Address,
    bob: Address,
    charlie: Address,
}

fn default_accounts() -> Accounts {
    Accounts {
        alice: Address::from_low_u64_be(1),
        bob: Address::from_low_u64_be(2),
        charlie: Address::from_low_u64_be(3),
    }
}

#[test]
fn new_creates_empty_registry() {
    let registry = ContractRegistry::new();
    assert!(registry.get_latest(String::from("nonexistent")).is_none());
}

#[test]
fn publish_latest_registers_new_contract() {
    let accounts = default_accounts();

    let mut registry = ContractRegistry::new();
    let name = String::from("my_contract");
    let addr = accounts.bob;
    let uri = String::from("ipfs://QmTest123");

    registry.publish_latest(name.clone(), addr, uri.clone(), accounts.alice, 0);

    let latest = registry.get_latest(name.clone()).expect("contract should exist");
    assert_eq!(latest.address, addr);
    assert_eq!(latest.metadata_uri, uri);

    let info = registry.get_info(name).expect("info should exist");
    assert_eq!(info.owner, accounts.alice);
    assert_eq!(info.version_count, 1);
}

#[test]
fn publish_latest_increments_version() {
    let accounts = default_accounts();

    let mut registry = ContractRegistry::new();
    let name = String::from("my_contract");

    // Publish version 0
    registry.publish_latest(name.clone(), accounts.bob, String::from("ipfs://v0"), accounts.alice, 0);

    // Publish version 1
    registry.publish_latest(
        name.clone(),
        accounts.charlie,
        String::from("ipfs://v1"),
        accounts.alice,
        0,
    );

    // Latest should be version 1
    let latest = registry.get_latest(name.clone()).expect("should exist");
    assert_eq!(latest.address, accounts.charlie);
    assert_eq!(latest.metadata_uri, String::from("ipfs://v1"));

    // Version count should be 2
    let info = registry.get_info(name.clone()).expect("info should exist");
    assert_eq!(info.version_count, 2);

    // Version 0 should still be accessible
    let v0 = registry.get_version(name.clone(), 0).expect("v0 should exist");
    assert_eq!(v0.address, accounts.bob);
    assert_eq!(v0.metadata_uri, String::from("ipfs://v0"));
}

#[test]
fn non_owner_cannot_publish_to_existing_name() {
    let accounts = default_accounts();

    let mut registry = ContractRegistry::new();
    let name = String::from("my_contract");

    // Alice publishes first, becoming owner
    registry.publish_latest(name.clone(), accounts.bob, String::from("ipfs://v0"), accounts.alice, 0);

    // Bob tries to publish to the same name
    registry.publish_latest(
        name.clone(),
        accounts.charlie,
        String::from("ipfs://malicious"),
        accounts.bob,
        0,
    );

    // Should still be Alice's version
    let latest = registry.get_latest(name.clone()).expect("should exist");
    assert_eq!(latest.address, accounts.bob);
    assert_eq!(latest.metadata_uri, String::from("ipfs://v0"));

    // Version count should still be 1
    let info = registry.get_info(name).expect("info should exist");
    assert_eq!(info.owner, accounts.alice);
    assert_eq!(info.version_count, 1);
}

#[test]
fn get_latest_returns_none_for_unknown_name() {
    let registry = ContractRegistry::new();
    assert!(registry.get_latest(String::from("unknown")).is_none());
}

#[test]
fn multiple_contracts_are_independent() {
    let accounts = default_accounts();

    let mut registry = ContractRegistry::new();

    // Register contract A
    registry.publish_latest(
        String::from("contract_a"),
        accounts.bob,
        String::from("ipfs://a"),
        accounts.alice,
        0,
    );

    // Register contract B
    registry.publish_latest(
        String::from("contract_b"),
        accounts.charlie,
        String::from("ipfs://b"),
        accounts.alice,
        0,
    );

    // Both should exist independently
    let a = registry.get_latest(String::from("contract_a")).expect("a should exist");
    let b = registry.get_latest(String::from("contract_b")).expect("b should exist");

    assert_eq!(a.address, accounts.bob);
    assert_eq!(b.address, accounts.charlie);
}

#[test]
fn different_owners_can_register_different_names() {
    let accounts = default_accounts();
    let mut registry = ContractRegistry::new();

    // Alice registers contract_a
    registry.publish_latest(
        String::from("contract_a"),
        accounts.bob,
        String::from("ipfs://a"),
        accounts.alice,
        0,
    );

    // Bob registers contract_b
    registry.publish_latest(
        String::from("contract_b"),
        accounts.charlie,
        String::from("ipfs://b"),
        accounts.bob,
        0,
    );

    let info_a = registry.get_info(String::from("contract_a")).unwrap();
    let info_b = registry.get_info(String::from("contract_b")).unwrap();

    assert_eq!(info_a.owner, accounts.alice);
    assert_eq!(info_b.owner, accounts.bob);
}

#[test]
fn publish_block_is_recorded() {
    let accounts = default_accounts();

    let mut registry = ContractRegistry::new();
    let name = String::from("my_contract");

    // The host is two blocks further on.
    registry.publish_latest(name.clone(), accounts.bob, String::from("ipfs://test"), accounts.alice, 2);

    let latest = registry.get_latest(name).expect("should exist");
    assert_eq!(latest.publish_block, 2);
}

#[test]
fn contract_names_list_is_populated() {
    let accounts = default_accounts();

    let mut registry = ContractRegistry::new();

    registry.publish_latest(
        String::from("first"),
        accounts.bob,
        String::from("ipfs://1"),
        accounts.alice,
        0,
    );
    registry.publish_latest(
        String::from("second"),
        accounts.bob,
        String::from("ipfs://2"),
        accounts.alice,
        0,
    );

    assert_eq!(registry.name_count(), 2);
    assert_eq!(registry.get_name(0), Some(String::from("first")));
    assert_eq!(registry.get_name(1), Some(String::from("second")));
    assert_eq!(registry.get_name(2), None);
}

#[test]
fn publishing_new_version_does_not_add_duplicate_name() {
    let accounts = default_accounts();

    let mut registry = ContractRegistry::new();
    let name = String::from("my_contract");

    // Publish twice to same name
    registry.publish_latest(name.clone(), accounts.bob, String::from("ipfs://v0"), accounts.alice, 0);
    registry.publish_latest(
        name.clone(),
        accounts.charlie,
        String::from("ipfs://v1"),
        accounts.alice,
        0,
    );

    // Should only have one entry in contract_names
    assert_eq!(registry.name_count(), 1);
}

#[test]
fn versions_read_back_whole() {
    let accounts = default_accounts();
    let mut registry = ContractRegistry::new();
    let name = String::from("n");
    registry.publish_latest(name.clone(), accounts.bob, String::from("u0"), accounts.alice, 4);
    registry.publish_latest(name.clone(), accounts.charlie, String::from("u1"), accounts.alice, 9);

    assert_eq!(
        registry.get_version(name.clone(), 0),
        Some(PublishedContract {
            publish_block: 4,
            address: accounts.bob,
            metadata_uri: String::from("u0"),
        })
    );
    assert_eq!(
        registry.get_version(name.clone(), 1),
        Some(PublishedContract {
            publish_block: 9,
            address: accounts.charlie,
            metadata_uri: String::from("u1"),
        })
    );
    assert_eq!(registry.get_version(name.clone(), 2), None);
    assert_eq!(registry.get_version(String::from("m"), 0), None);
    assert_eq!(
        registry.get_info(name),
        Some(NamedContractInfo { owner: accounts.alice, version_count: 2 })
    );
    assert_eq!(registry.get_info(String::from("m")), None);
}

#[test]
fn owner_and_newcomer_can_publish() {
    let accounts = default_accounts();
    let mut registry = ContractRegistry::new();
    let name = String::from("n");
    assert!(registry.can_publish(&name, accounts.alice));
    registry.publish_latest(name.clone(), accounts.bob, String::from("u0"), accounts.alice, 0);
    assert!(registry.can_publish(&name, accounts.alice));
    assert!(registry.can_publish(&name, accounts.bob));
}

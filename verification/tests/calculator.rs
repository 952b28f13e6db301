use rep_system::calculator::{weighted_sum_fits, MarketplaceCalculator, ReputationCalculator};
use rep_system::types::Address;

#[test]
fn proof_must_be_present_and_rater_must_differ() {
    let calc = MarketplaceCalculator::new();
    let a = Address::from_low_u64_be(1);
    let b = Address::from_low_u64_be(2);
    assert!(calc.validate_transaction_proof(a, b, vec![1]));
    assert!(!calc.validate_transaction_proof(a, b, vec![]));
    assert!(!calc.validate_transaction_proof(a, a, vec![1]));
}

#[test]
fn payload_scores() {
    let calc = MarketplaceCalculator::new();
    assert_eq!(calc.calculate_score(vec![]), 50);
    assert_eq!(calc.calculate_score(vec![0]), 100);
}

#[test]
fn weighted_mean_of_children() {
    let calc = MarketplaceCalculator::new();
    assert_eq!(calc.aggregate_hierarchical(vec![80, 20], vec![3, 1]), 65);
    assert_eq!(calc.aggregate_hierarchical(vec![10, 11], vec![1, 1]), 10);
    assert_eq!(calc.aggregate_hierarchical(vec![7], vec![5]), 7);
    assert_eq!(
        calc.aggregate_hierarchical(vec![u64::MAX, u64::MAX], vec![u32::MAX, u32::MAX]),
        u64::MAX
    );
}

#[test]
fn weighted_mean_is_neutral_without_weight() {
    let calc = MarketplaceCalculator::new();
    assert_eq!(calc.aggregate_hierarchical(vec![], vec![]), 50);
    assert_eq!(calc.aggregate_hierarchical(vec![1, 2], vec![1]), 50);
    assert_eq!(calc.aggregate_hierarchical(vec![90, 10], vec![0, 0]), 50);
}

#[test]
fn linear_decay() {
    let calc = MarketplaceCalculator::new();
    assert_eq!(calc.apply_decay(100, 0, 10), 100);
    assert_eq!(calc.apply_decay(100, 5, 10), 75);
    assert_eq!(calc.apply_decay(100, 10, 10), 50);
    assert_eq!(calc.apply_decay(100, 1000, 10), 50);
    assert_eq!(calc.apply_decay(100, 7, 0), 100);
    assert_eq!(calc.apply_decay(7, 1, 3), 6);
    assert_eq!(calc.apply_decay(u64::MAX, u32::MAX, u32::MAX), u64::MAX - u64::MAX / 2);
}

#[test]
fn weighted_sum_fits_for_ordinary_lists() {
    assert!(weighted_sum_fits(&vec![], &vec![]));
    assert!(weighted_sum_fits(&vec![1, 2], &vec![1]));
    assert!(weighted_sum_fits(&vec![u64::MAX; 1000], &vec![u32::MAX; 1000]));
}

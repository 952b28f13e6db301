use rep_system::market::{Market, ProductReview, SellerReview};
use rep_system::types::Address;

#[test]
fn product_review_updates_metadata_and_index() {
    let mut market = Market::new();
    let product = 1;
    let seller = 2;
    let customer = Address::from_low_u64_be(1);
    market.set_product_seller(product, seller);

    market.submit_product_review(
        product,
        ProductReview {
            rating: 4,
            comment: String::from("good"),
        },
        customer,
    );

    let meta = market.get_product_metadata(product);
    assert_eq!(meta.average.n_entries(), 1);
    assert_eq!(meta.average.sum(), 4);
    assert_eq!(meta.average.val(), 4);

    let seller_meta = market.get_seller_metadata(seller);
    assert_eq!(seller_meta.product_average.n_entries(), 1);
    assert_eq!(seller_meta.product_average.sum(), 4);
    assert_eq!(seller_meta.product_average.val(), 4);

    assert_eq!(seller_meta.average.n_entries(), 0);
    assert_eq!(seller_meta.average.sum(), 0);
    assert_eq!(seller_meta.average.val(), 0);

    let reviewers = market.get_product_reviewers(product);
    assert_eq!(reviewers, vec![customer]);
}

#[test]
fn product_review_overwrite_recalculates() {
    let mut market = Market::new();
    let product = 3;
    let seller = 4;
    let customer = Address::from_low_u64_be(5);
    market.set_product_seller(product, seller);

    market.submit_product_review(
        product,
        ProductReview {
            rating: 5,
            comment: String::from("initial"),
        },
        customer,
    );
    market.submit_product_review(
        product,
        ProductReview {
            rating: 2,
            comment: String::from("updated"),
        },
        customer,
    );

    let meta = market.get_product_metadata(product);
    assert_eq!(meta.average.n_entries(), 1);
    assert_eq!(meta.average.sum(), 2);
    assert_eq!(meta.average.val(), 2);

    let seller_meta = market.get_seller_metadata(seller);
    assert_eq!(seller_meta.product_average.n_entries(), 1);
    assert_eq!(seller_meta.product_average.sum(), 2);
    assert_eq!(seller_meta.product_average.val(), 2);

    let reviewers = market.get_product_reviewers(product);
    assert_eq!(reviewers, vec![customer]);
}

#[test]
fn product_reviews_from_multiple_customers_accumulate() {
    let mut market = Market::new();
    let product = 6;
    let seller = 7;
    let customer_one = Address::from_low_u64_be(1);
    let customer_two = Address::from_low_u64_be(2);
    market.set_product_seller(product, seller);

    market.submit_product_review(
        product,
        ProductReview {
            rating: 4,
            comment: String::from("great"),
        },
        customer_one,
    );

    market.submit_product_review(
        product,
        ProductReview {
            rating: 2,
            comment: String::from("ok"),
        },
        customer_two,
    );

    let meta = market.get_product_metadata(product);
    assert_eq!(meta.average.n_entries(), 2);
    assert_eq!(meta.average.sum(), 6);
    assert_eq!(meta.average.val(), 3);

    let seller_meta = market.get_seller_metadata(seller);
    assert_eq!(seller_meta.product_average.n_entries(), 1);
    assert_eq!(seller_meta.product_average.sum(), 3);
    assert_eq!(seller_meta.product_average.val(), 3);

    let reviewers = market.get_product_reviewers(product);
    assert_eq!(reviewers.len(), 2);
    assert!(reviewers.contains(&customer_one));
    assert!(reviewers.contains(&customer_two));
}

#[test]
fn seller_review_insert_and_update() {
    let mut market = Market::new();
    let seller = 8;
    let customer_one = Address::from_low_u64_be(11);
    let customer_two = Address::from_low_u64_be(12);

    market.submit_seller_review(
        seller,
        SellerReview {
            rating: 5,
            comment: String::from("excellent"),
        },
        customer_one,
    );

    market.submit_seller_review(
        seller,
        SellerReview {
            rating: 1,
            comment: String::from("bad"),
        },
        customer_two,
    );

    let meta = market.get_seller_metadata(seller);
    assert_eq!(meta.average.n_entries(), 2);
    assert_eq!(meta.average.sum(), 6);
    assert_eq!(meta.average.val(), 3);
    assert_eq!(meta.product_average.n_entries(), 0);
    assert_eq!(meta.product_average.sum(), 0);
    assert_eq!(meta.product_average.val(), 0);

    // Update existing review should keep n_entries constant.
    market.submit_seller_review(
        seller,
        SellerReview {
            rating: 3,
            comment: String::from("better"),
        },
        customer_two,
    );

    let updated_meta = market.get_seller_metadata(seller);
    assert_eq!(updated_meta.average.n_entries(), 2);
    assert_eq!(updated_meta.average.sum(), 8);
    assert_eq!(updated_meta.average.val(), 4);
}

#[test]
fn delete_product_review_updates_metadata_and_index() {
    let mut market = Market::new();
    let product = 9;
    let seller = 10;
    let customer_one = Address::from_low_u64_be(21);
    let customer_two = Address::from_low_u64_be(22);

    market.set_product_seller(product, seller);

    market.submit_product_review(
        product,
        ProductReview {
            rating: 4,
            comment: String::from("good"),
        },
        customer_one,
    );

    market.submit_product_review(
        product,
        ProductReview {
            rating: 2,
            comment: String::from("ok"),
        },
        customer_two,
    );

    // Pre-delete
    let meta = market.get_product_metadata(product);
    assert_eq!(meta.average.n_entries(), 2);
    assert_eq!(meta.average.sum(), 6);
    assert_eq!(meta.average.val(), 3);

    let seller_meta = market.get_seller_metadata(seller);
    assert_eq!(seller_meta.product_average.n_entries(), 1);
    assert_eq!(seller_meta.product_average.sum(), 3);
    assert_eq!(seller_meta.product_average.val(), 3);

    // Delete one review
    market.delete_product_review(product, customer_two);

    let meta = market.get_product_metadata(product);
    assert_eq!(meta.average.n_entries(), 1);
    assert_eq!(meta.average.sum(), 4);
    assert_eq!(meta.average.val(), 4);

    let seller_meta = market.get_seller_metadata(seller);
    assert_eq!(seller_meta.product_average.n_entries(), 1);
    assert_eq!(seller_meta.product_average.sum(), 4);
    assert_eq!(seller_meta.product_average.val(), 4);

    let reviewers = market.get_product_reviewers(product);
    assert_eq!(reviewers.len(), 1);
    assert_eq!(reviewers[0], customer_one);

    // Delete last review
    market.delete_product_review(product, customer_one);

    let meta = market.get_product_metadata(product);
    assert_eq!(meta.average.n_entries(), 0);
    assert_eq!(meta.average.sum(), 0);
    assert_eq!(meta.average.val(), 0);

    let seller_meta = market.get_seller_metadata(seller);
    assert_eq!(seller_meta.product_average.n_entries(), 0);
    assert_eq!(seller_meta.product_average.sum(), 0);
    assert_eq!(seller_meta.product_average.val(), 0);

    let reviewers = market.get_product_reviewers(product);
    assert_eq!(reviewers.len(), 0);
}

#[test]
fn delete_product_review_noop_when_missing() {
    let mut market = Market::new();
    let product = 11;
    let customer = Address::from_low_u64_be(30);

    // Should not panic
    market.delete_product_review(product, customer);

    assert_eq!(market.get_product_metadata(product).average.n_entries(), 0);
    assert_eq!(market.get_product_reviewers(product).len(), 0);
}

#[test]
fn delete_seller_review_updates_metadata() {
    let mut market = Market::new();
    let seller = 12;
    let customer_one = Address::from_low_u64_be(31);
    let customer_two = Address::from_low_u64_be(32);

    market.submit_seller_review(
        seller,
        SellerReview {
            rating: 5,
            comment: String::from("excellent"),
        },
        customer_one,
    );

    market.submit_seller_review(
        seller,
        SellerReview {
            rating: 1,
            comment: String::from("bad"),
        },
        customer_two,
    );

    let meta = market.get_seller_metadata(seller);
    assert_eq!(meta.average.n_entries(), 2);
    assert_eq!(meta.average.sum(), 6);
    assert_eq!(meta.average.val(), 3);

    // Delete one
    market.delete_seller_review(seller, customer_two);

    let meta = market.get_seller_metadata(seller);
    assert_eq!(meta.average.n_entries(), 1);
    assert_eq!(meta.average.sum(), 5);
    assert_eq!(meta.average.val(), 5);

    // Delete remaining
    market.delete_seller_review(seller, customer_one);

    let meta = market.get_seller_metadata(seller);
    assert_eq!(meta.average.n_entries(), 0);
    assert_eq!(meta.average.sum(), 0);
    assert_eq!(meta.average.val(), 0);
}

#[test]
fn delete_seller_review_noop_when_missing() {
    let mut market = Market::new();
    let seller = 13;
    let customer = Address::from_low_u64_be(40);

    // No entry, should be no-op
    market.delete_seller_review(seller, customer);

    assert_eq!(market.get_seller_metadata(seller).average.n_entries(), 0);
}

#[test]
fn seller_product_average_rolls_up_two_products() {
    let mut market = Market::new();
    let seller = 1;
    market.set_product_seller(100, seller);
    market.set_product_seller(200, seller);

    market.submit_product_review(
        100,
        ProductReview { rating: 4, comment: String::new() },
        Address::from_low_u64_be(1),
    );
    market.submit_product_review(
        200,
        ProductReview { rating: 2, comment: String::new() },
        Address::from_low_u64_be(2),
    );

    let meta = market.get_seller_metadata(seller);
    assert_eq!(meta.product_average.n_entries(), 2);
    assert_eq!(meta.product_average.sum(), 6);
    assert_eq!(meta.product_average.val(), 3);
}

#[test]
fn reviews_of_customers_with_equal_low_bits_are_kept_apart() {
    let mut market = Market::new();
    let one = Address { hi: 1, lo: 7 };
    let two = Address { hi: 2, lo: 7 };

    market.submit_product_review(5, ProductReview { rating: 1, comment: String::new() }, one);
    market.submit_product_review(5, ProductReview { rating: 5, comment: String::new() }, two);

    let meta = market.get_product_metadata(5);
    assert_eq!(meta.average.n_entries(), 2);
    assert_eq!(meta.average.sum(), 6);
    assert_eq!(market.get_product_reviewers(5), vec![one, two]);

    market.delete_product_review(5, one);
    let meta = market.get_product_metadata(5);
    assert_eq!(meta.average.n_entries(), 1);
    assert_eq!(meta.average.sum(), 5);
    assert_eq!(market.get_product_reviewers(5), vec![two]);
}

#[test]
fn product_without_seller_changes_no_seller() {
    let mut market = Market::new();
    market.submit_product_review(
        9,
        ProductReview { rating: 3, comment: String::new() },
        Address::from_low_u64_be(1),
    );
    assert_eq!(market.get_product_metadata(9).average.val(), 3);
    assert_eq!(market.get_seller_metadata(9).product_average.n_entries(), 0);
    assert_eq!(market.get_seller_metadata(0).product_average.n_entries(), 0);
}

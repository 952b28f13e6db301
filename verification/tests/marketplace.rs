use rep_system::marketplace::{
    Mark3tRep, PurchaseId, SellerId, SellerRating, BuyerId, CONTEXT, TYPE_ARTICLE, TYPE_BUYER,
    TYPE_SELLER, TYPE_SHIPPING,
};
use rep_system::types::{
    Address, ContextCreated, Notification, ScoreUpdated, NO_ENTITY, NO_RATING,
};

const SELLER1: SellerId = 42;
const SELLER2: SellerId = 84;
const BUYER1: BuyerId = 69;
const ARTICLE1: u8 = 1;

const PURCHASE1: u64 = 1234;
const PURCHASE2: u64 = 3456;
const PURCHASE3: u64 = 5678;

fn owner() -> Address {
    Address::from_low_u64_be(1)
}

fn create_rating(purchase_id: PurchaseId, seller_id: SellerId) -> SellerRating {
    SellerRating {
        purchase_id,
        timestamp: 1,
        buyer: BUYER1,
        seller_id,
        article_id: ARTICLE1,
        seller_score: 5,
        article_score: 4,
        shipping_score: 1,
        remark: None,
    }
}

fn submit(market_rep: &mut Mark3tRep, rating: SellerRating) {
    let timestamp = rating.timestamp;
    let submit_res = market_rep.submit_seller_rating(rating.clone(), owner(), timestamp);
    assert!(submit_res.is_ok(), "Error submitting seller rating");
}

#[test]
fn get_seller_score() {
    let (mut market_rep, _) = Mark3tRep::new(owner(), 0);

    assert_eq!(market_rep.get_seller_score(SELLER1), NO_RATING as u8);

    submit(
        &mut market_rep,
        SellerRating {
            purchase_id: PURCHASE1,
            timestamp: 1,
            buyer: BUYER1,
            seller_id: SELLER1,
            article_id: ARTICLE1,
            seller_score: 5,
            article_score: 4,
            shipping_score: 5,
            remark: Some("Great seller.".into()),
        },
    );

    assert_eq!(
        market_rep.get_seller_score(SELLER1),
        100,
        "Wrong score after rating 1. submission."
    );

    submit(
        &mut market_rep,
        SellerRating {
            purchase_id: PURCHASE2,
            timestamp: 2,
            buyer: BUYER1,
            seller_id: SELLER1,
            article_id: ARTICLE1,
            seller_score: 3,
            article_score: 4,
            shipping_score: 3,
            remark: Some("Could be better".into()),
        },
    );

    assert_eq!(
        market_rep.get_seller_score(SELLER1),
        80,
        "Wrong score after rating 2. submission."
    );
}

#[test]
fn get_ratings() {
    let (mut market_rep, _) = Mark3tRep::new(owner(), 0);

    submit(&mut market_rep, create_rating(PURCHASE1, SELLER1));
    submit(&mut market_rep, create_rating(PURCHASE2, SELLER2));
    submit(&mut market_rep, create_rating(PURCHASE3, SELLER1));

    let all_ratings = market_rep.get_all_seller_ratings();
    all_ratings.iter().for_each(|t| println!("{:?}", t));

    assert_eq!(3, all_ratings.len(), "Wrong number of all ratings");

    let ratings_for1 = market_rep.get_all_seller_ratings_for(SELLER1);
    assert_eq!(2, ratings_for1.len(), "Wrong number of ratings for Seller 1");

    let ratings_for2 = market_rep.get_all_seller_ratings_for(SELLER2);
    assert_eq!(1, ratings_for2.len(), "Wrong number of ratings for Seller 2");
}

#[test]
fn get_transactions() {
    let (mut market_rep, _) = Mark3tRep::new(owner(), 0);

    submit(&mut market_rep, create_rating(PURCHASE1, SELLER1));
    submit(&mut market_rep, create_rating(PURCHASE2, SELLER2));
    submit(&mut market_rep, create_rating(PURCHASE3, SELLER1));

    assert_eq!(2, market_rep.get_purchases(SELLER1).len());
}

#[test]
fn seller_rating_reads_back_as_submitted() {
    let (mut market_rep, _) = Mark3tRep::new(owner(), 0);
    let rating = SellerRating {
        purchase_id: PURCHASE1,
        timestamp: 77,
        buyer: BUYER1,
        seller_id: SELLER1,
        article_id: ARTICLE1,
        seller_score: 5,
        article_score: 4,
        shipping_score: 3,
        remark: Some("Great seller.".into()),
    };
    submit(&mut market_rep, rating.clone());

    assert_eq!(market_rep.get_seller_rating(PURCHASE1), Some(rating.clone()));
    assert_eq!(market_rep.get_seller_rating(PURCHASE2), None);
    assert_eq!(market_rep.get_all_seller_ratings(), vec![rating.clone()]);
    assert_eq!(market_rep.get_all_seller_ratings_for(SELLER1), vec![rating]);
    assert_eq!(market_rep.get_all_seller_ratings_for(SELLER2), vec![]);
    assert_eq!(market_rep.get_purchases(SELLER1), vec![PURCHASE1]);
    assert_eq!(market_rep.get_transactions_for_entity(CONTEXT, ARTICLE1), vec![PURCHASE1]);
    assert_eq!(market_rep.get_transactions_for_entity(CONTEXT, NO_ENTITY), vec![PURCHASE1]);
    assert_eq!(market_rep.get_transactions_for_entity(CONTEXT + 1, SELLER1), Vec::<u64>::new());
}

#[test]
fn new_marketplace_registers_context_and_relations() {
    let (market_rep, created) = Mark3tRep::new(owner(), 3);
    assert_eq!(created, ContextCreated { context: CONTEXT, owner: owner(), time: 3 });
    let ledger = market_rep.ledger();
    assert_eq!(ledger.check_owner(CONTEXT, owner()), Ok(()));
    assert_eq!(ledger.get_relations(CONTEXT, TYPE_BUYER), vec![TYPE_ARTICLE, TYPE_SHIPPING]);
    assert_eq!(ledger.get_relations(CONTEXT, TYPE_SELLER), Vec::<u8>::new());
    assert_eq!(market_rep.get_all_seller_ratings(), vec![]);
}

#[test]
fn seller_rating_notifies_three_ratings_and_a_score() {
    let (mut market_rep, _) = Mark3tRep::new(owner(), 0);
    let notices = market_rep
        .submit_seller_rating(create_rating(PURCHASE1, SELLER1), owner(), 9)
        .unwrap();
    assert_eq!(notices.len(), 4);
    assert!(matches!(notices[0], Notification::Rating(_)));
    assert!(matches!(notices[1], Notification::Rating(_)));
    assert!(matches!(notices[2], Notification::Rating(_)));
    assert_eq!(
        notices[3],
        Notification::Score(ScoreUpdated {
            context: CONTEXT,
            entity_id: SELLER1,
            timestamp: 9,
            entity_type: TYPE_SELLER,
            score: 100,
        })
    );
    match &notices[0] {
        Notification::Rating(n) => {
            assert_eq!(n.context, CONTEXT);
            assert_eq!(n.entity_type, TYPE_ARTICLE);
            assert_eq!(n.entity_id, ARTICLE1);
            assert_eq!(n.rating, 80);
            assert_eq!(n.user, BUYER1);
            assert_eq!(n.timestamp, 9);
            assert_eq!(n.remark, None);
        }
        _ => unreachable!(),
    }
    match &notices[1] {
        Notification::Rating(n) => {
            assert_eq!(n.entity_type, TYPE_SHIPPING);
            assert_eq!(n.entity_id, NO_ENTITY);
            assert_eq!(n.rating, 20);
        }
        _ => unreachable!(),
    }
}

#[test]
fn resubmitted_purchase_changes_no_rating() {
    let (mut market_rep, _) = Mark3tRep::new(owner(), 0);
    submit(&mut market_rep, create_rating(PURCHASE1, SELLER1));
    let mut second = create_rating(PURCHASE1, SELLER1);
    second.seller_score = 1;
    let notices = market_rep.submit_seller_rating(second, owner(), 1).unwrap();
    assert_eq!(notices.len(), 1);
    assert_eq!(market_rep.get_seller_score(SELLER1), 100);
    assert_eq!(market_rep.get_all_seller_ratings().len(), 1);
    assert_eq!(market_rep.get_seller_rating(PURCHASE1).unwrap().seller_score, 5);
}

#[test]
fn stranger_changes_nothing_in_marketplace() {
    let (mut market_rep, _) = Mark3tRep::new(owner(), 0);
    submit(&mut market_rep, create_rating(PURCHASE1, SELLER1));
    let stranger = Address::from_low_u64_be(2);
    let notices = market_rep
        .submit_seller_rating(create_rating(PURCHASE2, SELLER1), stranger, 1)
        .unwrap();
    assert_eq!(notices.len(), 0);
    assert_eq!(market_rep.get_purchases(SELLER1), vec![PURCHASE1]);
    assert_eq!(market_rep.get_seller_rating(PURCHASE2), None);
    assert_eq!(market_rep.get_seller_score(SELLER1), 100);
}

#[test]
fn accepts_says_when_a_rating_can_be_submitted() {
    let (mut market_rep, _) = Mark3tRep::new(owner(), 0);
    let stranger = Address::from_low_u64_be(2);

    assert!(market_rep.accepts(&create_rating(PURCHASE1, SELLER1), owner(), 1));
    assert!(market_rep.accepts(&create_rating(PURCHASE1, SELLER1), stranger, 1));
    let mut too_many_stars = create_rating(PURCHASE1, SELLER1);
    too_many_stars.article_score = 13;
    assert!(!market_rep.accepts(&too_many_stars, owner(), 1));
    let mut most_stars = create_rating(PURCHASE1, SELLER1);
    most_stars.article_score = 12;
    assert!(market_rep.accepts(&most_stars, owner(), 1));

    submit(&mut market_rep, create_rating(PURCHASE1, SELLER1));
    // The purchase is rated: a seller without values cannot be scored.
    assert!(!market_rep.accepts(&create_rating(PURCHASE1, SELLER2), owner(), 1));
    assert!(market_rep.accepts(&create_rating(PURCHASE1, SELLER1), owner(), 1));
    assert!(market_rep.accepts(&create_rating(PURCHASE1, SELLER2), stranger, 1));
}

#[test]
fn most_stars_fill_the_scale() {
    let (mut market_rep, _) = Mark3tRep::new(owner(), 0);
    let mut rating = create_rating(PURCHASE1, SELLER1);
    rating.seller_score = 12;
    submit(&mut market_rep, rating);
    assert_eq!(market_rep.get_seller_score(SELLER1), 240);
    assert_eq!(market_rep.get_seller_rating(PURCHASE1).unwrap().seller_score, 12);
}

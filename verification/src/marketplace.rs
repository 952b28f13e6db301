//! The reputation of sellers in one marketplace.
//!
//! A buyer rates a purchase in one go: the article, the shipping and the
//! seller. `Mark3tRep` turns such a rating into three ratings of the ledger,
//! keeps the seller's score up to date, and reads the three ratings of a
//! purchase back as one.

use crate::ledger::{rows_view, RepSystem};
use crate::registry::owner_check;
use crate::state::LedgerState;
use crate::types::{
    clone_remark,
    Address,
    ContextCreated,
    ContextId,
    EntityId,
    EntityType,
    Error,
    Notification,
    Person,
    Rating,
    Score,
    Timestamp,
    TransactionId,
    NO_ENTITY,
};
use vstd::prelude::*;

verus! {

/// Identifies a purchase.
pub type PurchaseId = TransactionId;

/// Identifies a seller.
pub type SellerId = EntityId;

/// Identifies a buyer.
pub type BuyerId = EntityId;

/// The context of the marketplace.
pub const CONTEXT: ContextId = 1;

/// The entity type of sellers.
pub const TYPE_SELLER: EntityType = 2;

/// The entity type of articles.
pub const TYPE_ARTICLE: EntityType = 3;

/// The entity type of shipments.
pub const TYPE_SHIPPING: EntityType = 4;

/// The entity type of buyers.
pub const TYPE_BUYER: EntityType = 5;

/// The number of points on the ledger's scale for one star of a rating.
pub const POINTS_PER_STAR: u8 = 20;

/// The largest number of stars that fits the ledger's scale.
pub const MAX_STARS: u8 = 12;

/// The rating of one purchase: stars for the seller, the article and the
/// shipping, and a remark about the seller.
#[derive(Debug, PartialEq, Eq)]
pub struct SellerRating {
    pub purchase_id: PurchaseId,
    pub timestamp: u64,
    pub buyer: Person,
    pub seller_id: SellerId,
    pub article_id: EntityId,
    pub seller_score: Score,
    pub article_score: Score,
    pub shipping_score: Score,
    pub remark: Option<String>,
}

impl Clone for SellerRating {
    fn clone(&self) -> (copy: Self)
        ensures
            copy == *self,
    {
        SellerRating {
            purchase_id: self.purchase_id,
            timestamp: self.timestamp,
            buyer: self.buyer,
            seller_id: self.seller_id,
            article_id: self.article_id,
            seller_score: self.seller_score,
            article_score: self.article_score,
            shipping_score: self.shipping_score,
            remark: clone_remark(&self.remark),
        }
    }
}

/// The entity types of a purchase, in the order in which its ratings are
/// read.
pub open spec fn sell_types() -> Seq<EntityType> {
    seq![TYPE_ARTICLE, TYPE_SHIPPING, TYPE_SELLER]
}

/// Whether the stars of a rating fit the ledger's scale.
pub open spec fn stars_in_range(r: SellerRating) -> bool {
    r.seller_score <= MAX_STARS && r.article_score <= MAX_STARS && r.shipping_score <= MAX_STARS
}

/// The rating of the article of a purchase.
pub open spec fn article_part(r: SellerRating, timestamp: Timestamp) -> Rating {
    Rating {
        transaction_id: r.purchase_id,
        rater: r.buyer,
        entity_id: r.article_id,
        entity_type: TYPE_ARTICLE,
        timestamp,
        rating: (r.article_score * POINTS_PER_STAR) as u8,
        remark: None,
    }
}

/// The rating of the shipping of a purchase, which is about no entity.
pub open spec fn shipping_part(r: SellerRating, timestamp: Timestamp) -> Rating {
    Rating {
        transaction_id: r.purchase_id,
        rater: r.buyer,
        entity_id: NO_ENTITY,
        entity_type: TYPE_SHIPPING,
        timestamp,
        rating: (r.shipping_score * POINTS_PER_STAR) as u8,
        remark: None,
    }
}

/// The rating of the seller of a purchase, which carries the remark.
pub open spec fn seller_part(r: SellerRating, timestamp: Timestamp) -> Rating {
    Rating {
        transaction_id: r.purchase_id,
        rater: r.buyer,
        entity_id: r.seller_id,
        entity_type: TYPE_SELLER,
        timestamp,
        rating: (r.seller_score * POINTS_PER_STAR) as u8,
        remark: r.remark,
    }
}

/// The three ratings of a purchase read back as one.
pub open spec fn combined(
    transaction: TransactionId,
    article: Rating,
    shipping: Rating,
    seller: Rating,
) -> SellerRating {
    SellerRating {
        article_id: article.entity_id,
        purchase_id: transaction,
        timestamp: seller.timestamp,
        buyer: seller.rater,
        seller_id: seller.entity_id,
        seller_score: seller.rating / POINTS_PER_STAR,
        article_score: article.rating / POINTS_PER_STAR,
        shipping_score: shipping.rating / POINTS_PER_STAR,
        remark: seller.remark,
    }
}

/// The rating of purchase `tx` as the ledger holds it.
pub open spec fn seller_rating_at(s: LedgerState, tx: TransactionId) -> SellerRating {
    combined(
        tx,
        s.ratings[(CONTEXT, tx, TYPE_ARTICLE)],
        s.ratings[(CONTEXT, tx, TYPE_SHIPPING)],
        s.ratings[(CONTEXT, tx, TYPE_SELLER)],
    )
}

/// The ratings of the purchases `txs`, in order.
pub open spec fn seller_ratings_at(s: LedgerState, txs: Seq<TransactionId>) -> Seq<SellerRating> {
    Seq::new(txs.len(), |i: int| seller_rating_at(s, txs[i]))
}

/// The ledger after the three ratings of a purchase were submitted, each
/// stored where the ledger admits it.
pub open spec fn after_parts(
    s: LedgerState,
    r: SellerRating,
    caller: Address,
    timestamp: Timestamp,
) -> LedgerState {
    s.submitted(caller, CONTEXT, article_part(r, timestamp)).submitted(
        caller,
        CONTEXT,
        shipping_part(r, timestamp),
    ).submitted(caller, CONTEXT, seller_part(r, timestamp))
}

/// The notifications of the rating of a purchase: one for each part that the
/// ledger admits, then one for the seller's score where the caller owns the
/// context.
pub open spec fn seller_rating_notices(
    s: LedgerState,
    r: SellerRating,
    caller: Address,
    timestamp: Timestamp,
) -> Seq<Notification> {
    let s1 = s.submitted(caller, CONTEXT, article_part(r, timestamp));
    let s2 = s1.submitted(caller, CONTEXT, shipping_part(r, timestamp));
    let s3 = s2.submitted(caller, CONTEXT, seller_part(r, timestamp));
    s.submission_notices(caller, CONTEXT, article_part(r, timestamp)) + s1.submission_notices(
        caller,
        CONTEXT,
        shipping_part(r, timestamp),
    ) + s2.submission_notices(caller, CONTEXT, seller_part(r, timestamp)) + s3.rescoring_notices(
        caller,
        CONTEXT,
        r.seller_id,
        TYPE_SELLER,
        timestamp,
    )
}

/// Every purchase of the marketplace is rated in full: its context stores
/// ratings of articles, shippings and sellers only, and a purchase with one
/// of them has all three.
pub open spec fn purchases_complete(s: LedgerState) -> bool {
    &&& s.owners.contains_key(CONTEXT)
    &&& forall|tx: TransactionId, ty: EntityType| #[trigger]
        s.rated(CONTEXT, tx, ty) ==> {
            &&& ty == TYPE_ARTICLE || ty == TYPE_SHIPPING || ty == TYPE_SELLER
            &&& s.rated(CONTEXT, tx, TYPE_ARTICLE)
            &&& s.rated(CONTEXT, tx, TYPE_SHIPPING)
            &&& s.rated(CONTEXT, tx, TYPE_SELLER)
        }
}

/// The requested entity types of a purchase.
fn sell_types_list() -> (types: Vec<EntityType>)
    ensures
        types@ == sell_types(),
{
    let mut types: Vec<EntityType> = Vec::new();
    types.push(TYPE_ARTICLE);
    types.push(TYPE_SHIPPING);
    types.push(TYPE_SELLER);
    assert(types@ =~= sell_types());
    types
}

/// Combines the three ratings of a purchase into one.
fn to_seller_rating(
    transaction: TransactionId,
    article_rating: &Rating,
    shipping_rating: &Rating,
    seller_rating: &Rating,
) -> (whole: SellerRating)
    ensures
        whole == combined(transaction, *article_rating, *shipping_rating, *seller_rating),
{
    SellerRating {
        article_id: article_rating.entity_id,
        purchase_id: transaction,
        timestamp: seller_rating.timestamp,
        buyer: seller_rating.rater,
        seller_id: seller_rating.entity_id,
        seller_score: seller_rating.rating / POINTS_PER_STAR,
        article_score: article_rating.rating / POINTS_PER_STAR,
        shipping_score: shipping_rating.rating / POINTS_PER_STAR,
        remark: clone_remark(&seller_rating.remark),
    }
}

/// Combines the ratings of a purchase, given in the order of `sell_types`,
/// into one.
fn to_seller_rating_from_vec(transaction: TransactionId, ratings: &Vec<Option<Rating>>) -> (whole:
    SellerRating)
    requires
        ratings@.len() == 3,
        ratings@[0] is Some,
        ratings@[1] is Some,
        ratings@[2] is Some,
    ensures
        whole == combined(
            transaction,
            ratings@[0].unwrap(),
            ratings@[1].unwrap(),
            ratings@[2].unwrap(),
        ),
{
    let article_rating = ratings[0].as_ref().unwrap();
    let shipping_rating = ratings[1].as_ref().unwrap();
    let seller_rating = ratings[2].as_ref().unwrap();
    to_seller_rating(transaction, article_rating, shipping_rating, seller_rating)
}

/// The reputation ledger of the marketplace.
pub struct Mark3tRep {
    rep: RepSystem,
}

impl View for Mark3tRep {
    type V = LedgerState;

    closed spec fn view(&self) -> LedgerState {
        self.rep@
    }
}

impl Mark3tRep {
    /// The ledger is consistent and every purchase is rated in full.
    pub open spec fn wf(&self) -> bool {
        self@.wf() && purchases_complete(self@)
    }

    /// The ledger of a new marketplace: `owner` owns its context, and the
    /// ratings of articles and shippings are declared to feed buyers.
    pub fn new(owner: Address, time: Timestamp) -> (created: (Self, ContextCreated))
        ensures
            created.0.wf(),
            created.0@ == LedgerState::empty().with_context(CONTEXT, owner).with_relation(
                CONTEXT,
                TYPE_ARTICLE,
                TYPE_BUYER,
            ).with_relation(CONTEXT, TYPE_SHIPPING, TYPE_BUYER),
            created.1 == (ContextCreated { context: CONTEXT, owner, time }),
    {
        let mut rep = RepSystem::new();
        let notice = rep.register_context(CONTEXT, owner, time).unwrap();
        rep.insert_relation(CONTEXT, TYPE_ARTICLE, TYPE_BUYER);
        rep.insert_relation(CONTEXT, TYPE_SHIPPING, TYPE_BUYER);
        (Mark3tRep { rep }, notice)
    }

    /// Whether `submit_seller_rating` takes this rating from this caller: the
    /// stars fit the ledger's scale, and where the caller owns the context
    /// the seller has a value on record once the parts are submitted.
    pub fn accepts(&self, seller_rating: &SellerRating, caller: Address, timestamp: Timestamp) -> (yes:
        bool)
        requires
            self.wf(),
        ensures
            yes == (stars_in_range(*seller_rating) && (owner_check(self@.owners, CONTEXT, caller) is Ok
                ==> after_parts(self@, *seller_rating, caller, timestamp).values_of(
                CONTEXT,
                seller_rating.seller_id,
            ).len() > 0)),
    {
        if seller_rating.seller_score > MAX_STARS || seller_rating.article_score > MAX_STARS
            || seller_rating.shipping_score > MAX_STARS {
            return false;
        }
        if self.rep.check_owner(CONTEXT, caller).is_err() {
            return true;
        }
        let ghost s0 = self@;
        let ghost tx = seller_rating.purchase_id;
        assert(s0.rated(CONTEXT, tx, TYPE_ARTICLE) == s0.rated(CONTEXT, tx, TYPE_SELLER));
        assert(s0.rated(CONTEXT, tx, TYPE_SHIPPING) == s0.rated(CONTEXT, tx, TYPE_SELLER));
        if self.rep.is_rated(CONTEXT, seller_rating.purchase_id, TYPE_SELLER) {
            assert(after_parts(s0, *seller_rating, caller, timestamp) == s0);
            self.rep.has_values(CONTEXT, seller_rating.seller_id)
        } else {
            true
        }
    }

    /// The ledger behind the marketplace, for reading.
    pub fn ledger(&self) -> (rep: &RepSystem)
        ensures
            rep@ == self@,
    {
        &self.rep
    }

    /// Submits the rating of a purchase on behalf of `caller`: its three parts
    /// go to the ledger, which stores each part that it admits, and the
    /// seller's score is recomputed. The notifications of what was stored and
    /// recomputed are returned, in that order.
    ///
    /// The stars must fit the ledger's scale, and where the caller owns the
    /// context the seller must have a value on record once the parts are
    /// submitted, as is the case whenever a part was stored.
    pub fn submit_seller_rating(
        &mut self,
        seller_rating: SellerRating,
        caller: Address,
        timestamp: Timestamp,
    ) -> (outcome: Result<Vec<Notification>, Error>)
        requires
            old(self).wf(),
            stars_in_range(seller_rating),
            owner_check(old(self)@.owners, CONTEXT, caller) is Ok ==> after_parts(
                old(self)@,
                seller_rating,
                caller,
                timestamp,
            ).values_of(CONTEXT, seller_rating.seller_id).len() > 0,
        ensures
            final(self).wf(),
            final(self)@ == after_parts(old(self)@, seller_rating, caller, timestamp).rescored(
                caller,
                CONTEXT,
                seller_rating.seller_id,
            ),
            outcome is Ok,
            outcome.unwrap()@ == seller_rating_notices(old(self)@, seller_rating, caller, timestamp),
    {
        let mut notices: Vec<Notification> = Vec::new();
        let seller_id = seller_rating.seller_id;
        let article = Rating {
            transaction_id: seller_rating.purchase_id,
            rater: seller_rating.buyer,
            entity_id: seller_rating.article_id,
            entity_type: TYPE_ARTICLE,
            timestamp,
            rating: seller_rating.article_score * POINTS_PER_STAR,
            remark: None,
        };
        let shipping = Rating {
            transaction_id: seller_rating.purchase_id,
            rater: seller_rating.buyer,
            entity_id: NO_ENTITY,
            entity_type: TYPE_SHIPPING,
            timestamp,
            rating: seller_rating.shipping_score * POINTS_PER_STAR,
            remark: None,
        };
        let seller = Rating {
            transaction_id: seller_rating.purchase_id,
            rater: seller_rating.buyer,
            entity_id: seller_rating.seller_id,
            entity_type: TYPE_SELLER,
            timestamp,
            rating: seller_rating.seller_score * POINTS_PER_STAR,
            remark: seller_rating.remark,
        };
        assert(article == article_part(seller_rating, timestamp));
        assert(shipping == shipping_part(seller_rating, timestamp));
        assert(seller == seller_part(seller_rating, timestamp));
        let ghost s0 = self@;
        assert(s0.rated(CONTEXT, seller_rating.purchase_id, TYPE_ARTICLE) == s0.rated(
            CONTEXT,
            seller_rating.purchase_id,
            TYPE_SELLER,
        ));
        assert(s0.rated(CONTEXT, seller_rating.purchase_id, TYPE_SHIPPING) == s0.rated(
            CONTEXT,
            seller_rating.purchase_id,
            TYPE_SELLER,
        ));
        match self.rep.submit_rating(CONTEXT, article, caller) {
            Ok(notice) => {
                notices.push(Notification::Rating(notice));
            },
            Err(_) => {},
        }
        let ghost s1 = self@;
        assert(notices@ =~= s0.submission_notices(caller, CONTEXT, article));
        match self.rep.submit_rating(CONTEXT, shipping, caller) {
            Ok(notice) => {
                notices.push(Notification::Rating(notice));
            },
            Err(_) => {},
        }
        let ghost s2 = self@;
        assert(notices@ =~= s0.submission_notices(caller, CONTEXT, article)
            + s1.submission_notices(caller, CONTEXT, shipping));
        match self.rep.submit_rating(CONTEXT, seller, caller) {
            Ok(notice) => {
                notices.push(Notification::Rating(notice));
            },
            Err(_) => {},
        }
        let ghost s3 = self@;
        assert(notices@ =~= s0.submission_notices(caller, CONTEXT, article)
            + s1.submission_notices(caller, CONTEXT, shipping) + s2.submission_notices(
            caller,
            CONTEXT,
            seller,
        ));
        assert(s3 == after_parts(s0, seller_rating, caller, timestamp));
        assert(purchases_complete(s3)) by {
            assert forall|tx: TransactionId, ty: EntityType| #[trigger]
                s3.rated(CONTEXT, tx, ty) implies {
                &&& ty == TYPE_ARTICLE || ty == TYPE_SHIPPING || ty == TYPE_SELLER
                &&& s3.rated(CONTEXT, tx, TYPE_ARTICLE)
                &&& s3.rated(CONTEXT, tx, TYPE_SHIPPING)
                &&& s3.rated(CONTEXT, tx, TYPE_SELLER)
            } by {
                if s0.rated(CONTEXT, tx, ty) {
                    assert(s0.rated(CONTEXT, tx, TYPE_ARTICLE));
                    assert(s0.rated(CONTEXT, tx, TYPE_SHIPPING));
                    assert(s0.rated(CONTEXT, tx, TYPE_SELLER));
                }
            }
        }
        self.update_seller_score(seller_id, caller, timestamp, &mut notices);
        Ok(notices)
    }

    /// Recomputes the score of a seller and notes the notification.
    fn update_seller_score(
        &mut self,
        seller_id: SellerId,
        caller: Address,
        timestamp: Timestamp,
        notices: &mut Vec<Notification>,
    )
        requires
            old(self).wf(),
            owner_check(old(self)@.owners, CONTEXT, caller) is Ok ==> old(self)@.values_of(
                CONTEXT,
                seller_id,
            ).len() > 0,
        ensures
            final(self).wf(),
            final(self)@ == old(self)@.rescored(caller, CONTEXT, seller_id),
            final(notices)@ == old(notices)@ + old(self)@.rescoring_notices(
                caller,
                CONTEXT,
                seller_id,
                TYPE_SELLER,
                timestamp,
            ),
    {
        let hint = self.rep.get_score(CONTEXT, seller_id);
        match self.rep.update_score(CONTEXT, seller_id, TYPE_SELLER, hint, caller, timestamp) {
            Ok(notice) => {
                notices.push(Notification::Score(notice));
            },
            Err(_) => {},
        }
        assert(notices@ =~= old(notices)@ + old(self)@.rescoring_notices(
            caller,
            CONTEXT,
            seller_id,
            TYPE_SELLER,
            timestamp,
        ));
        assert(purchases_complete(self@)) by {
            assert forall|tx: TransactionId, ty: EntityType| #[trigger]
                self@.rated(CONTEXT, tx, ty) implies {
                &&& ty == TYPE_ARTICLE || ty == TYPE_SHIPPING || ty == TYPE_SELLER
                &&& self@.rated(CONTEXT, tx, TYPE_ARTICLE)
                &&& self@.rated(CONTEXT, tx, TYPE_SHIPPING)
                &&& self@.rated(CONTEXT, tx, TYPE_SELLER)
            } by {
                assert(old(self)@.rated(CONTEXT, tx, ty));
            }
        }
    }

    /// Combines the rows of a query, one purchase each, into seller ratings.
    fn to_seller_ratings(&self, rows: &Vec<(TransactionId, Vec<Option<Rating>>)>, Ghost(txs): Ghost<
        Seq<TransactionId>,
    >) -> (all: Vec<SellerRating>)
        requires
            self.wf(),
            rows_view(rows@) == self@.ratings_for_transactions(CONTEXT, txs, sell_types()),
            forall|i: int| 0 <= i < txs.len() ==> self@.transaction_rated(CONTEXT, #[trigger] txs[i]),
        ensures
            all@ == seller_ratings_at(self@, txs),
    {
        let mut all: Vec<SellerRating> = Vec::new();
        let mut i: usize = 0;
        assert(rows_view(rows@).len() == txs.len());
        while i < rows.len()
            invariant
                i <= rows.len(),
                rows@.len() == txs.len(),
                self.wf(),
                rows_view(rows@) == self@.ratings_for_transactions(CONTEXT, txs, sell_types()),
                forall|i: int|
                    0 <= i < txs.len() ==> self@.transaction_rated(CONTEXT, #[trigger] txs[i]),
                all@ == seller_ratings_at(self@, txs.take(i as int)),
            decreases rows.len() - i,
        {
            let row = &rows[i];
            proof {
                let tx = txs[i as int];
                assert(rows_view(rows@)[i as int] == (
                    tx,
                    self@.ratings_for_transaction(CONTEXT, tx, sell_types()),
                ));
                assert(self@.transaction_rated(CONTEXT, tx));
                let ty = choose|ty: EntityType| self@.rated(CONTEXT, tx, ty);
                assert(self@.rated(CONTEXT, tx, ty));
                assert(row.1@[0] == self@.ratings.get((CONTEXT, tx, sell_types()[0])));
                assert(row.1@[1] == self@.ratings.get((CONTEXT, tx, sell_types()[1])));
                assert(row.1@[2] == self@.ratings.get((CONTEXT, tx, sell_types()[2])));
            }
            let whole = to_seller_rating_from_vec(row.0, &row.1);
            all.push(whole);
            assert(all@ =~= seller_ratings_at(self@, txs.take(i + 1)));
            i += 1;
        }
        assert(txs.take(txs.len() as int) =~= txs);
        all
    }

    /// The ratings of all purchases, in the order of their submission.
    pub fn get_all_seller_ratings(&self) -> (all: Vec<SellerRating>)
        requires
            self.wf(),
        ensures
            all@ == seller_ratings_at(self@, self@.transactions_in(CONTEXT)),
    {
        let types = sell_types_list();
        let rows = self.rep.get_ratings(CONTEXT, &types);
        let ghost txs = self@.transactions_in(CONTEXT);
        assert forall|i: int| 0 <= i < txs.len() implies self@.transaction_rated(
            CONTEXT,
            #[trigger] txs[i],
        ) by {
            assert(txs.contains(txs[i]));
        }
        self.to_seller_ratings(&rows, Ghost(txs))
    }

    /// The ratings of the purchases that hold a rating about `seller_id`.
    pub fn get_all_seller_ratings_for(&self, seller_id: SellerId) -> (all: Vec<SellerRating>)
        requires
            self.wf(),
        ensures
            all@ == seller_ratings_at(self@, self@.transactions_for_entity(CONTEXT, seller_id)),
    {
        let types = sell_types_list();
        let rows = self.rep.get_ratings_for_entity(CONTEXT, seller_id, &types);
        let ghost txs = self@.transactions_for_entity(CONTEXT, seller_id);
        assert forall|i: int| 0 <= i < txs.len() implies self@.transaction_rated(
            CONTEXT,
            #[trigger] txs[i],
        ) by {
            assert(txs.contains(txs[i]));
            assert(self@.entity_rated_in(CONTEXT, seller_id, txs[i]));
            let ty = choose|ty: EntityType| self@.rates(CONTEXT, txs[i], ty, seller_id);
            assert(self@.rated(CONTEXT, txs[i], ty));
        }
        self.to_seller_ratings(&rows, Ghost(txs))
    }

    /// The rating of one purchase, if it was rated.
    pub fn get_seller_rating(&self, transaction: TransactionId) -> (found: Option<SellerRating>)
        requires
            self.wf(),
        ensures
            found == if self@.rated(CONTEXT, transaction, TYPE_SELLER) {
                Some(seller_rating_at(self@, transaction))
            } else {
                None
            },
    {
        let types = sell_types_list();
        let ratings = self.rep.get_ratings_for_transaction(CONTEXT, transaction, &types);
        proof {
            assert(ratings@[0] == self@.ratings.get((CONTEXT, transaction, sell_types()[0])));
            assert(ratings@[1] == self@.ratings.get((CONTEXT, transaction, sell_types()[1])));
            assert(ratings@[2] == self@.ratings.get((CONTEXT, transaction, sell_types()[2])));
            if self@.rated(CONTEXT, transaction, TYPE_SELLER) {
                assert(self@.rated(CONTEXT, transaction, TYPE_ARTICLE));
                assert(self@.rated(CONTEXT, transaction, TYPE_SHIPPING));
            }
        }
        if ratings[2].is_none() {
            None
        } else {
            Some(to_seller_rating_from_vec(transaction, &ratings))
        }
    }

    /// The cached score of a seller, or `NO_RATING` where none was computed.
    pub fn get_seller_score(&self, seller_id: SellerId) -> (score: Score)
        ensures
            score == self@.score_of(CONTEXT, seller_id),
    {
        self.rep.get_score(CONTEXT, seller_id)
    }

    /// The purchases that hold a rating about `seller_id`.
    pub fn get_purchases(&self, seller_id: SellerId) -> (purchases: Vec<PurchaseId>)
        ensures
            purchases@ == self@.transactions_for_entity(CONTEXT, seller_id),
    {
        self.rep.get_transactions_for_entity(CONTEXT, seller_id)
    }

    /// The transactions that hold a rating about `entity_id` in `context`.
    pub fn get_transactions_for_entity(&self, context: ContextId, entity_id: EntityId) -> (txs: Vec<
        TransactionId,
    >)
        ensures
            txs@ == self@.transactions_for_entity(context, entity_id),
    {
        self.rep.get_transactions_for_entity(context, entity_id)
    }
}

} // verus!

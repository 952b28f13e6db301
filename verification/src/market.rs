//! Reviews of products and sellers, one per customer, with running averages.
//!
//! A customer may review a product or a seller once; reviewing again replaces
//! the earlier review, and a review can be deleted. The average of each
//! product and seller follows every change in constant time. The average of
//! a product in turn contributes one value to the product average of its
//! seller, which is replaced whenever the product's average changes.

use crate::average::{lift_u64, lift_u8, AverageState, RunningAverage};
use crate::pair_map::PairMap;
use crate::types::Address;
use std::collections::HashMap;
use vstd::prelude::*;

verus! {

broadcast use vstd::std_specs::hash::group_hash_axioms;

/// Identifies a seller.
pub type SellerId = u64;

/// Identifies a product.
pub type ProductId = u64;

/// Identifies the customer who writes a review.
pub type CustomerId = Address;

/// A customer's review of a product.
#[derive(Debug, Default, PartialEq, Eq)]
pub struct ProductReview {
    pub rating: u8,
    pub comment: String,
}

impl Clone for ProductReview {
    fn clone(&self) -> (copy: Self)
        ensures
            copy == *self,
    {
        ProductReview { rating: self.rating, comment: self.comment.clone() }
    }
}

/// A customer's review of a seller.
#[derive(Debug, Default, PartialEq, Eq)]
pub struct SellerReview {
    pub rating: u8,
    pub comment: String,
}

impl Clone for SellerReview {
    fn clone(&self) -> (copy: Self)
        ensures
            copy == *self,
    {
        SellerReview { rating: self.rating, comment: self.comment.clone() }
    }
}

/// The aggregate of the reviews of a product.
#[derive(Clone, Copy, Debug, PartialEq, Eq)]
pub struct ProductMetadata {
    /// The average of the ratings of this product.
    pub average: RunningAverage,
}

impl View for ProductMetadata {
    type V = AverageState;

    open spec fn view(&self) -> AverageState {
        self.average@
    }
}

impl Default for ProductMetadata {
    fn default() -> (meta: Self)
        ensures
            meta@ == AverageState::empty(),
    {
        ProductMetadata { average: RunningAverage::new() }
    }
}

/// The two averages kept for a seller.
pub struct SellerAverages {
    /// The average of the ratings given to the seller directly.
    pub direct: AverageState,
    /// The average of the averages of the seller's rated products.
    pub products: AverageState,
}

impl SellerAverages {
    /// The averages of a seller about whom nothing is known.
    pub open spec fn empty() -> SellerAverages {
        SellerAverages { direct: AverageState::empty(), products: AverageState::empty() }
    }
}

/// The aggregate of what is known about a seller.
#[derive(Clone, Copy, Debug, PartialEq, Eq)]
pub struct SellerMetadata {
    /// The average of the seller's own reviews.
    pub average: RunningAverage,
    /// The average of the averages of the seller's products, counting only
    /// products with at least one review.
    pub product_average: RunningAverage,
}

impl View for SellerMetadata {
    type V = SellerAverages;

    open spec fn view(&self) -> SellerAverages {
        SellerAverages { direct: self.average@, products: self.product_average@ }
    }
}

impl Default for SellerMetadata {
    fn default() -> (meta: Self)
        ensures
            meta@ == SellerAverages::empty(),
    {
        SellerMetadata { average: RunningAverage::new(), product_average: RunningAverage::new() }
    }
}

/// What an average contributes to the average above it: its value, once it
/// has an entry.
pub open spec fn contribution(avg: AverageState) -> Option<nat> {
    if avg.count > 0 {
        Some(avg.value())
    } else {
        None
    }
}

/// The rating of a product review, where there is one.
pub open spec fn product_rating(review: Option<ProductReview>) -> Option<nat> {
    match review {
        Some(r) => Some(r.rating as nat),
        None => None,
    }
}

/// The rating of a seller review, where there is one.
pub open spec fn seller_rating(review: Option<SellerReview>) -> Option<nat> {
    match review {
        Some(r) => Some(r.rating as nat),
        None => None,
    }
}

/// `list` without every occurrence of `who`.
pub open spec fn others(list: Seq<CustomerId>, who: CustomerId) -> Seq<CustomerId>
    decreases list.len(),
{
    if list.len() == 0 {
        list
    } else if list.last() == who {
        others(list.drop_last(), who)
    } else {
        others(list.drop_last(), who).push(list.last())
    }
}

/// What a market holds.
pub struct MarketState {
    /// The review of each product by each customer.
    pub product_reviews: Map<(ProductId, CustomerId), ProductReview>,
    /// The average rating of each reviewed product.
    pub product_averages: Map<ProductId, AverageState>,
    /// The review of each seller by each customer.
    pub seller_reviews: Map<(SellerId, CustomerId), SellerReview>,
    /// The averages of each seller.
    pub seller_averages: Map<SellerId, SellerAverages>,
    /// The seller of each product whose seller is known.
    pub product_sellers: Map<ProductId, SellerId>,
    /// The customers who reviewed each product, in the order of their first
    /// review.
    pub reviewers: Map<ProductId, Seq<CustomerId>>,
}

impl MarketState {
    /// A market that holds nothing.
    pub open spec fn empty() -> MarketState {
        MarketState {
            product_reviews: Map::empty(),
            product_averages: Map::empty(),
            seller_reviews: Map::empty(),
            seller_averages: Map::empty(),
            product_sellers: Map::empty(),
            reviewers: Map::empty(),
        }
    }

    /// The average of a product; empty for a product without metadata.
    pub open spec fn product_average(self, product: ProductId) -> AverageState {
        if self.product_averages.contains_key(product) {
            self.product_averages[product]
        } else {
            AverageState::empty()
        }
    }

    /// The averages of a seller; empty for a seller without metadata.
    pub open spec fn seller_average(self, seller: SellerId) -> SellerAverages {
        if self.seller_averages.contains_key(seller) {
            self.seller_averages[seller]
        } else {
            SellerAverages::empty()
        }
    }

    /// The customers who reviewed a product.
    pub open spec fn reviewers_of(self, product: ProductId) -> Seq<CustomerId> {
        if self.reviewers.contains_key(product) {
            self.reviewers[product]
        } else {
            Seq::empty()
        }
    }

    /// The state after the seller of `product` was recorded.
    pub open spec fn with_product_seller(self, product: ProductId, seller: SellerId) -> MarketState {
        MarketState { product_sellers: self.product_sellers.insert(product, seller), ..self }
    }

    /// The state after the average of `product` went from `before` to
    /// `after`: where the seller of the product is known, the seller's
    /// product average has the product's old contribution replaced by its
    /// new one.
    pub open spec fn with_product_change(
        self,
        product: ProductId,
        before: AverageState,
        after: AverageState,
    ) -> MarketState {
        if self.product_sellers.contains_key(product) {
            let seller = self.product_sellers[product];
            let meta = self.seller_average(seller);
            MarketState {
                seller_averages: self.seller_averages.insert(
                    seller,
                    SellerAverages {
                        products: meta.products.updated(contribution(before), contribution(after)),
                        ..meta
                    },
                ),
                ..self
            }
        } else {
            self
        }
    }

    /// The state after `customer` submitted `review` of `product`: the review
    /// is stored in place of an earlier one, a customer who reviews the
    /// product for the first time is listed for it, the product's average
    /// takes the new rating in place of the earlier one, and the change is
    /// passed on to the seller.
    pub open spec fn product_review_submitted(
        self,
        product: ProductId,
        customer: CustomerId,
        review: ProductReview,
    ) -> MarketState {
        let previous = self.product_reviews.get((product, customer));
        let before = self.product_average(product);
        let after = before.updated(product_rating(previous), Some(review.rating as nat));
        MarketState {
            product_reviews: self.product_reviews.insert((product, customer), review),
            reviewers: if previous is None {
                self.reviewers.insert(product, self.reviewers_of(product).push(customer))
            } else {
                self.reviewers
            },
            product_averages: self.product_averages.insert(product, after),
            ..self
        }.with_product_change(product, before, after)
    }

    /// The state after `customer` deleted their review of `product`. Without
    /// such a review nothing changes. Otherwise the review is gone, its
    /// rating leaves the product's average, the customer is no longer listed
    /// for the product, and the change is passed on to the seller.
    pub open spec fn product_review_deleted(self, product: ProductId, customer: CustomerId)
        -> MarketState {
        let previous = self.product_reviews.get((product, customer));
        if previous is None {
            self
        } else {
            let before = self.product_average(product);
            let after = before.updated(product_rating(previous), None);
            MarketState {
                product_reviews: self.product_reviews.remove((product, customer)),
                reviewers: self.reviewers.insert(
                    product,
                    others(self.reviewers_of(product), customer),
                ),
                product_averages: self.product_averages.insert(product, after),
                ..self
            }.with_product_change(product, before, after)
        }
    }

    /// The state after `customer` submitted `review` of `seller`: the review
    /// is stored in place of an earlier one, and the seller's own average
    /// takes the new rating in place of the earlier one.
    pub open spec fn seller_review_submitted(
        self,
        seller: SellerId,
        customer: CustomerId,
        review: SellerReview,
    ) -> MarketState {
        let previous = self.seller_reviews.get((seller, customer));
        let meta = self.seller_average(seller);
        MarketState {
            seller_reviews: self.seller_reviews.insert((seller, customer), review),
            seller_averages: self.seller_averages.insert(
                seller,
                SellerAverages {
                    direct: meta.direct.updated(seller_rating(previous), Some(review.rating as nat)),
                    ..meta
                },
            ),
            ..self
        }
    }

    /// The state after `customer` deleted their review of `seller`. Without
    /// such a review nothing changes. Otherwise the review is gone and its
    /// rating leaves the seller's own average.
    pub open spec fn seller_review_deleted(self, seller: SellerId, customer: CustomerId)
        -> MarketState {
        let previous = self.seller_reviews.get((seller, customer));
        if previous is None {
            self
        } else {
            let meta = self.seller_average(seller);
            MarketState {
                seller_reviews: self.seller_reviews.remove((seller, customer)),
                seller_averages: self.seller_averages.insert(
                    seller,
                    SellerAverages { direct: meta.direct.updated(seller_rating(previous), None), ..meta },
                ),
                ..self
            }
        }
    }
}

/// The row of a review table that holds the reviews of one subject by the
/// customers whose addresses share their upper bits.
pub open spec fn review_row(subject: u64, customer: CustomerId) -> u128 {
    (subject as u128 * 0x1_0000_0000 + customer.hi as u128) as u128
}

/// Computes the row of a review.
fn review_row_key(subject: u64, customer: CustomerId) -> (row: u128)
    ensures
        row == review_row(subject, customer),
{
    (subject as u128) * 0x1_0000_0000u128 + (customer.hi as u128)
}

/// Reviews of different subjects or by different customers have different
/// places in a review table.
proof fn lemma_review_places_differ(s1: u64, c1: CustomerId, s2: u64, c2: CustomerId)
    ensures
        review_row(s1, c1) == review_row(s2, c2) && c1.lo == c2.lo ==> s1 == s2 && c1 == c2,
{
}

/// A copy of `list` without every occurrence of `who`.
fn remove_customer(list: &Vec<CustomerId>, who: CustomerId) -> (rest: Vec<CustomerId>)
    ensures
        rest@ == others(list@, who),
{
    let mut rest: Vec<CustomerId> = Vec::new();
    let mut i: usize = 0;
    while i < list.len()
        invariant
            i <= list.len(),
            rest@ == others(list@.take(i as int), who),
        decreases list.len() - i,
    {
        let c = list[i];
        assert(list@.take(i + 1).drop_last() =~= list@.take(i as int));
        if c != who {
            rest.push(c);
        }
        i += 1;
    }
    assert(list@.take(list@.len() as int) =~= list@);
    rest
}

/// What an average contributes to the average above it.
fn contribution_of(avg: &RunningAverage) -> (value: Option<u64>)
    ensures
        lift_u64(value) == contribution(avg@),
{
    if avg.n_entries() > 0 {
        Some(avg.val())
    } else {
        None
    }
}

/// The reviews and averages of the products and sellers of a market.
pub struct Market {
    product_reviews: PairMap<ProductReview>,
    product_metadata: HashMap<ProductId, ProductMetadata>,
    seller_reviews: PairMap<SellerReview>,
    seller_metadata: HashMap<SellerId, SellerMetadata>,
    product_sellers_index: HashMap<ProductId, SellerId>,
    product_review_index: HashMap<ProductId, Vec<CustomerId>>,
}

impl View for Market {
    type V = MarketState;

    closed spec fn view(&self) -> MarketState {
        MarketState {
            product_reviews: Map::new(
                |k: (ProductId, CustomerId)|
                    self.product_reviews@.contains_key((review_row(k.0, k.1), k.1.lo)),
                |k: (ProductId, CustomerId)| self.product_reviews@[(review_row(k.0, k.1), k.1.lo)],
            ),
            product_averages: Map::new(
                |p: ProductId| self.product_metadata@.contains_key(p),
                |p: ProductId| self.product_metadata@[p]@,
            ),
            seller_reviews: Map::new(
                |k: (SellerId, CustomerId)|
                    self.seller_reviews@.contains_key((review_row(k.0, k.1), k.1.lo)),
                |k: (SellerId, CustomerId)| self.seller_reviews@[(review_row(k.0, k.1), k.1.lo)],
            ),
            seller_averages: Map::new(
                |s: SellerId| self.seller_metadata@.contains_key(s),
                |s: SellerId| self.seller_metadata@[s]@,
            ),
            product_sellers: self.product_sellers_index@,
            reviewers: Map::new(
                |p: ProductId| self.product_review_index@.contains_key(p),
                |p: ProductId| self.product_review_index@[p]@,
            ),
        }
    }
}

impl Market {
    /// A market that holds nothing.
    pub fn new() -> (market: Self)
        ensures
            market@ == MarketState::empty(),
    {
        let market = Market {
            product_reviews: PairMap::new(),
            product_metadata: HashMap::new(),
            seller_reviews: PairMap::new(),
            seller_metadata: HashMap::new(),
            product_sellers_index: HashMap::new(),
            product_review_index: HashMap::new(),
        };
        proof {
            let v = market@;
            let e = MarketState::empty();
            assert(v.product_reviews =~= e.product_reviews);
            assert(v.product_averages =~= e.product_averages);
            assert(v.seller_reviews =~= e.seller_reviews);
            assert(v.seller_averages =~= e.seller_averages);
            assert(v.reviewers =~= e.reviewers);
        }
        market
    }

    /// Records `seller` as the seller of `product`.
    pub fn set_product_seller(&mut self, product: ProductId, seller: SellerId)
        ensures
            final(self)@ == old(self)@.with_product_seller(product, seller),
    {
        self.product_sellers_index.insert(product, seller);
    }

    /// Passes a change of the average of `product` on to its seller.
    fn propagate_product_change(
        &mut self,
        product: ProductId,
        before: &RunningAverage,
        after: &RunningAverage,
    )
        ensures
            final(self)@ == old(self)@.with_product_change(product, before@, after@),
    {
        let seller = match self.product_sellers_index.get(&product) {
            Some(seller) => *seller,
            None => {
                return ;
            },
        };
        let mut seller_meta = match self.seller_metadata.get(&seller) {
            Some(meta) => *meta,
            None => SellerMetadata::default(),
        };
        let prev_product_val = contribution_of(before);
        let new_product_val = contribution_of(after);
        seller_meta.product_average.update_u64(prev_product_val, new_product_val);
        self.seller_metadata.insert(seller, seller_meta);
        proof {
            let goal = old(self)@.with_product_change(product, before@, after@);
            assert(self@.seller_averages =~= goal.seller_averages);
            assert(self@.product_reviews =~= goal.product_reviews);
            assert(self@.product_averages =~= goal.product_averages);
            assert(self@.seller_reviews =~= goal.seller_reviews);
            assert(self@.reviewers =~= goal.reviewers);
        }
    }

    /// Stores the review of `product_id` by `customer`, replacing an earlier
    /// one, and brings the averages of the product and of its seller up to
    /// date.
    pub fn submit_product_review(
        &mut self,
        product_id: ProductId,
        review: ProductReview,
        customer: CustomerId,
    )
        ensures
            final(self)@ == old(self)@.product_review_submitted(product_id, customer, review),
    {
        let row = review_row_key(product_id, customer);
        let rating = review.rating;
        let previous_rating: Option<u8> = match self.product_reviews.get(row, customer.lo) {
            Some(previous) => Some(previous.rating),
            None => None,
        };
        let old_product_meta = match self.product_metadata.get(&product_id) {
            Some(meta) => *meta,
            None => ProductMetadata::default(),
        };
        let ghost previous = old(self)@.product_reviews.get((product_id, customer));
        assert(lift_u8(previous_rating) == product_rating(previous));

        self.product_reviews.insert(row, customer.lo, review);

        if previous_rating.is_none() {
            let mut reviewers = match self.product_review_index.remove(&product_id) {
                Some(list) => list,
                None => Vec::new(),
            };
            reviewers.push(customer);
            self.product_review_index.insert(product_id, reviewers);
        }
        let mut product_avg = old_product_meta.average;
        product_avg.update_u8(previous_rating, Some(rating));
        self.product_metadata.insert(product_id, ProductMetadata { average: product_avg });

        proof {
            let before = old(self)@.product_average(product_id);
            let after = before.updated(product_rating(previous), Some(review.rating as nat));
            let mid = MarketState {
                product_reviews: old(self)@.product_reviews.insert((product_id, customer), review),
                reviewers: if previous is None {
                    old(self)@.reviewers.insert(
                        product_id,
                        old(self)@.reviewers_of(product_id).push(customer),
                    )
                } else {
                    old(self)@.reviewers
                },
                product_averages: old(self)@.product_averages.insert(product_id, after),
                ..old(self)@
            };
            assert(self@.product_reviews =~= mid.product_reviews) by {
                assert forall|k: (ProductId, CustomerId)|
                    self@.product_reviews.contains_key(k) <==> mid.product_reviews.contains_key(
                        k,
                    ) by {
                    lemma_review_places_differ(k.0, k.1, product_id, customer);
                }
                assert forall|k: (ProductId, CustomerId)|
                    self@.product_reviews.contains_key(k) implies self@.product_reviews[k]
                    == mid.product_reviews[k] by {
                    lemma_review_places_differ(k.0, k.1, product_id, customer);
                }
            }
            assert(self@.reviewers =~= mid.reviewers);
            assert(self@.product_averages =~= mid.product_averages);
            assert(self@.seller_reviews =~= mid.seller_reviews);
            assert(self@.seller_averages =~= mid.seller_averages);
            assert(self@ == mid);
        }
        self.propagate_product_change(product_id, &old_product_meta.average, &product_avg);
    }

    /// Stores the review of `seller` by `customer`, replacing an earlier one,
    /// and brings the seller's own average up to date.
    pub fn submit_seller_review(&mut self, seller: SellerId, review: SellerReview, customer: CustomerId)
        ensures
            final(self)@ == old(self)@.seller_review_submitted(seller, customer, review),
    {
        let row = review_row_key(seller, customer);
        let rating = review.rating;
        let previous_rating: Option<u8> = match self.seller_reviews.get(row, customer.lo) {
            Some(previous) => Some(previous.rating),
            None => None,
        };
        let ghost previous = old(self)@.seller_reviews.get((seller, customer));
        assert(lift_u8(previous_rating) == seller_rating(previous));

        self.seller_reviews.insert(row, customer.lo, review);

        let mut existing_meta = match self.seller_metadata.get(&seller) {
            Some(meta) => *meta,
            None => SellerMetadata::default(),
        };
        existing_meta.average.update_u8(previous_rating, Some(rating));
        self.seller_metadata.insert(seller, existing_meta);

        proof {
            let goal = old(self)@.seller_review_submitted(seller, customer, review);
            assert(self@.seller_reviews =~= goal.seller_reviews) by {
                assert forall|k: (SellerId, CustomerId)|
                    self@.seller_reviews.contains_key(k) <==> goal.seller_reviews.contains_key(
                        k,
                    ) by {
                    lemma_review_places_differ(k.0, k.1, seller, customer);
                }
                assert forall|k: (SellerId, CustomerId)|
                    self@.seller_reviews.contains_key(k) implies self@.seller_reviews[k]
                    == goal.seller_reviews[k] by {
                    lemma_review_places_differ(k.0, k.1, seller, customer);
                }
            }
            assert(self@.seller_averages =~= goal.seller_averages);
            assert(self@.product_reviews =~= goal.product_reviews);
            assert(self@.product_averages =~= goal.product_averages);
            assert(self@.reviewers =~= goal.reviewers);
        }
    }

    /// Deletes the review of `product_id` by `customer`, if there is one, and
    /// brings the averages of the product and of its seller up to date.
    pub fn delete_product_review(&mut self, product_id: ProductId, customer: CustomerId)
        ensures
            final(self)@ == old(self)@.product_review_deleted(product_id, customer),
    {
        let row = review_row_key(product_id, customer);
        let ghost previous = old(self)@.product_reviews.get((product_id, customer));
        let previous_rating: u8 = match self.product_reviews.remove(row, customer.lo) {
            Some(previous) => previous.rating,
            None => {
                assert(self@.product_reviews =~= old(self)@.product_reviews);
                assert(self@.product_averages =~= old(self)@.product_averages);
                assert(self@.seller_reviews =~= old(self)@.seller_reviews);
                assert(self@.seller_averages =~= old(self)@.seller_averages);
                assert(self@.reviewers =~= old(self)@.reviewers);
                return ;
            },
        };
        assert(lift_u8(Some(previous_rating)) == product_rating(previous));

        let old_product_meta = match self.product_metadata.get(&product_id) {
            Some(meta) => *meta,
            None => ProductMetadata::default(),
        };
        let mut product_avg = old_product_meta.average;
        product_avg.update_u8(Some(previous_rating), None);
        self.product_metadata.insert(product_id, ProductMetadata { average: product_avg });

        let reviewers = match self.product_review_index.get(&product_id) {
            Some(list) => remove_customer(list, customer),
            None => {
                let none: Vec<CustomerId> = Vec::new();
                remove_customer(&none, customer)
            },
        };
        self.product_review_index.insert(product_id, reviewers);

        proof {
            let before = old(self)@.product_average(product_id);
            let after = before.updated(product_rating(previous), None);
            let mid = MarketState {
                product_reviews: old(self)@.product_reviews.remove((product_id, customer)),
                reviewers: old(self)@.reviewers.insert(
                    product_id,
                    others(old(self)@.reviewers_of(product_id), customer),
                ),
                product_averages: old(self)@.product_averages.insert(product_id, after),
                ..old(self)@
            };
            assert(self@.product_reviews =~= mid.product_reviews) by {
                assert forall|k: (ProductId, CustomerId)|
                    self@.product_reviews.contains_key(k) <==> mid.product_reviews.contains_key(
                        k,
                    ) by {
                    lemma_review_places_differ(k.0, k.1, product_id, customer);
                }
                assert forall|k: (ProductId, CustomerId)|
                    self@.product_reviews.contains_key(k) implies self@.product_reviews[k]
                    == mid.product_reviews[k] by {
                    lemma_review_places_differ(k.0, k.1, product_id, customer);
                }
            }
            assert(self@.reviewers =~= mid.reviewers);
            assert(self@.product_averages =~= mid.product_averages);
            assert(self@.seller_reviews =~= mid.seller_reviews);
            assert(self@.seller_averages =~= mid.seller_averages);
            assert(self@ == mid);
        }
        self.propagate_product_change(product_id, &old_product_meta.average, &product_avg);
    }

    /// Deletes the review of `seller` by `customer`, if there is one, and
    /// brings the seller's own average up to date.
    pub fn delete_seller_review(&mut self, seller: SellerId, customer: CustomerId)
        ensures
            final(self)@ == old(self)@.seller_review_deleted(seller, customer),
    {
        let row = review_row_key(seller, customer);
        let ghost previous = old(self)@.seller_reviews.get((seller, customer));
        let previous_rating: u8 = match self.seller_reviews.remove(row, customer.lo) {
            Some(previous) => previous.rating,
            None => {
                assert(self@.product_reviews =~= old(self)@.product_reviews);
                assert(self@.product_averages =~= old(self)@.product_averages);
                assert(self@.seller_reviews =~= old(self)@.seller_reviews);
                assert(self@.seller_averages =~= old(self)@.seller_averages);
                assert(self@.reviewers =~= old(self)@.reviewers);
                return ;
            },
        };
        assert(lift_u8(Some(previous_rating)) == seller_rating(previous));

        let mut existing_meta = match self.seller_metadata.get(&seller) {
            Some(meta) => *meta,
            None => SellerMetadata::default(),
        };
        existing_meta.average.update_u8(Some(previous_rating), None);
        self.seller_metadata.insert(seller, existing_meta);

        proof {
            let goal = old(self)@.seller_review_deleted(seller, customer);
            assert(self@.seller_reviews =~= goal.seller_reviews) by {
                assert forall|k: (SellerId, CustomerId)|
                    self@.seller_reviews.contains_key(k) <==> goal.seller_reviews.contains_key(
                        k,
                    ) by {
                    lemma_review_places_differ(k.0, k.1, seller, customer);
                }
                assert forall|k: (SellerId, CustomerId)|
                    self@.seller_reviews.contains_key(k) implies self@.seller_reviews[k]
                    == goal.seller_reviews[k] by {
                    lemma_review_places_differ(k.0, k.1, seller, customer);
                }
            }
            assert(self@.seller_averages =~= goal.seller_averages);
            assert(self@.product_reviews =~= goal.product_reviews);
            assert(self@.product_averages =~= goal.product_averages);
            assert(self@.reviewers =~= goal.reviewers);
        }
    }

    /// The aggregate of the reviews of `product`; empty for a product that
    /// was never reviewed.
    pub fn get_product_metadata(&self, product: ProductId) -> (meta: ProductMetadata)
        ensures
            meta@ == self@.product_average(product),
    {
        match self.product_metadata.get(&product) {
            Some(meta) => *meta,
            None => ProductMetadata::default(),
        }
    }

    /// The aggregate of what is known about `seller`; empty for a seller
    /// about whom nothing is known.
    pub fn get_seller_metadata(&self, seller: SellerId) -> (meta: SellerMetadata)
        ensures
            meta@ == self@.seller_average(seller),
    {
        match self.seller_metadata.get(&seller) {
            Some(meta) => *meta,
            None => SellerMetadata::default(),
        }
    }

    /// The customers who reviewed `product`, in the order of their first
    /// review.
    pub fn get_product_reviewers(&self, product: ProductId) -> (reviewers: Vec<CustomerId>)
        ensures
            reviewers@ == self@.reviewers_of(product),
    {
        let mut reviewers: Vec<CustomerId> = Vec::new();
        match self.product_review_index.get(&product) {
            Some(list) => {
                let mut i: usize = 0;
                while i < list.len()
                    invariant
                        i <= list.len(),
                        reviewers@ == list@.take(i as int),
                    decreases list.len() - i,
                {
                    reviewers.push(list[i]);
                    assert(list@.take(i + 1) =~= list@.take(i as int).push(list@[i as int]));
                    i += 1;
                }
                assert(list@.take(list@.len() as int) =~= list@);
            },
            None => {},
        }
        reviewers
    }
}

} // verus!

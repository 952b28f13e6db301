//! Laws of the market, proved of its model.
//!
//! The list of the customers who reviewed a product always names exactly
//! those whose review is stored, each once. And the running average of a
//! product is always the sum and the number of the ratings stored for it, so
//! that no history of submissions, replacements and deletions makes it drift.

use crate::average::count_limit;
use crate::market::{others, CustomerId, MarketState, ProductId, ProductReview};
use vstd::prelude::*;

verus! {

/// The rating that `customer` gave to `product`; zero without a review.
pub open spec fn rating_of(
    reviews: Map<(ProductId, CustomerId), ProductReview>,
    product: ProductId,
    customer: CustomerId,
) -> nat {
    if reviews.contains_key((product, customer)) {
        reviews[(product, customer)].rating as nat
    } else {
        0
    }
}

/// The ratings that the customers `customers` gave to `product`, added up.
pub open spec fn rating_total(
    reviews: Map<(ProductId, CustomerId), ProductReview>,
    product: ProductId,
    customers: Seq<CustomerId>,
) -> nat
    decreases customers.len(),
{
    if customers.len() == 0 {
        0
    } else {
        rating_total(reviews, product, customers.drop_last()) + rating_of(
            reviews,
            product,
            customers.last(),
        )
    }
}

/// The list of each product names exactly the customers whose review of the
/// product is stored, each once.
pub open spec fn index_consistent(s: MarketState) -> bool {
    forall|p: ProductId|
        {
            &&& (#[trigger] s.reviewers_of(p)).no_duplicates()
            &&& forall|c: CustomerId|
                s.reviewers_of(p).contains(c) <==> s.product_reviews.contains_key((p, c))
        }
}

/// The average of each product counts the stored reviews of the product and
/// sums their ratings.
pub open spec fn averages_consistent(s: MarketState) -> bool {
    forall|p: ProductId|
        {
            &&& (#[trigger] s.product_average(p)).count == s.reviewers_of(p).len()
            &&& s.product_average(p).sum == rating_total(s.product_reviews, p, s.reviewers_of(p))
            &&& s.reviewers_of(p).len() <= count_limit()
        }
}

/// What removing a customer does to a list: the customer is gone, everybody
/// else stays, and a list without repetitions stays so and loses one entry if
/// the customer was in it.
pub proof fn lemma_others(list: Seq<CustomerId>, who: CustomerId)
    ensures
        !others(list, who).contains(who),
        forall|c: CustomerId| #[trigger] others(list, who).contains(c) <==> list.contains(c) && c != who,
        list.no_duplicates() ==> others(list, who).no_duplicates(),
        list.no_duplicates() ==> others(list, who).len() == list.len() - (if list.contains(who) {
            1int
        } else {
            0int
        }),
    decreases list.len(),
{
    if list.len() > 0 {
        let front = list.drop_last();
        let last = list.last();
        lemma_others(front, who);
        let out = others(list, who);
        assert forall|c: CustomerId| list.contains(c) <==> front.contains(c) || c == last by {
            if list.contains(c) {
                let i = choose|i: int| 0 <= i < list.len() && list[i] == c;
                if i < front.len() {
                    assert(front[i] == c);
                }
            }
            if front.contains(c) {
                let i = choose|i: int| 0 <= i < front.len() && front[i] == c;
                assert(list[i] == c);
            }
            if c == last {
                assert(list[list.len() - 1] == c);
            }
        }
        if last != who {
            let rest = others(front, who);
            assert(out == rest.push(last));
            assert forall|c: CustomerId| #[trigger] out.contains(c) <==> rest.contains(c) || c == last by {
                if out.contains(c) {
                    let i = choose|i: int| 0 <= i < out.len() && out[i] == c;
                    if i < rest.len() {
                        assert(rest[i] == c);
                    }
                }
                if rest.contains(c) {
                    let i = choose|i: int| 0 <= i < rest.len() && rest[i] == c;
                    assert(out[i] == c);
                }
                if c == last {
                    assert(out[out.len() - 1] == c);
                }
            }
        }
        if list.no_duplicates() {
            assert(front.no_duplicates());
            assert(!front.contains(last)) by {
                if front.contains(last) {
                    let i = choose|i: int| 0 <= i < front.len() && front[i] == last;
                    assert(list[i] == list[list.len() - 1]);
                }
            }
            if last != who {
                let rest = others(front, who);
                assert(!rest.contains(last));
                assert forall|i: int, j: int|
                    0 <= i < out.len() && 0 <= j < out.len() && i != j implies out[i] != out[j] by {
                    if i < rest.len() && j < rest.len() {
                    } else if i < rest.len() {
                        assert(rest.contains(rest[i]));
                    } else if j < rest.len() {
                        assert(rest.contains(rest[j]));
                    }
                }
            }
        }
    }
}

/// The total of a list of customers does not depend on the review of a
/// customer who is not in it, nor on the reviews of other products.
proof fn lemma_total_frame(
    before: Map<(ProductId, CustomerId), ProductReview>,
    after: Map<(ProductId, CustomerId), ProductReview>,
    product: ProductId,
    customers: Seq<CustomerId>,
)
    requires
        forall|c: CustomerId| #[trigger]
            customers.contains(c) ==> rating_of(after, product, c) == rating_of(before, product, c),
    ensures
        rating_total(after, product, customers) == rating_total(before, product, customers),
    decreases customers.len(),
{
    if customers.len() > 0 {
        let front = customers.drop_last();
        assert forall|c: CustomerId| #[trigger] front.contains(c) implies rating_of(
            after,
            product,
            c,
        ) == rating_of(before, product, c) by {
            let i = choose|i: int| 0 <= i < front.len() && front[i] == c;
            assert(customers[i] == c);
            assert(customers.contains(c));
        }
        lemma_total_frame(before, after, product, front);
        assert(customers.contains(customers.last())) by {
            assert(customers[customers.len() - 1] == customers.last());
        }
    }
}

/// Replacing the review of one customer in the list changes the total by the
/// difference of the ratings.
proof fn lemma_total_replace(
    reviews: Map<(ProductId, CustomerId), ProductReview>,
    product: ProductId,
    customers: Seq<CustomerId>,
    who: CustomerId,
    review: ProductReview,
)
    requires
        customers.no_duplicates(),
        customers.contains(who),
    ensures
        rating_total(reviews.insert((product, who), review), product, customers) + rating_of(
            reviews,
            product,
            who,
        ) == rating_total(reviews, product, customers) + review.rating,
    decreases customers.len(),
{
    let after = reviews.insert((product, who), review);
    let front = customers.drop_last();
    let last = customers.last();
    assert(!front.contains(last)) by {
        if front.contains(last) {
            let i = choose|i: int| 0 <= i < front.len() && front[i] == last;
            assert(customers[i] == customers[customers.len() - 1]);
        }
    }
    if last == who {
        lemma_total_frame(reviews, after, product, front);
    } else {
        assert(front.contains(who)) by {
            let i = choose|i: int| 0 <= i < customers.len() && customers[i] == who;
            assert(front[i] == who);
        }
        lemma_total_replace(reviews, product, front, who, review);
    }
}

/// Removing one customer from the list takes the customer's rating out of the
/// total.
proof fn lemma_total_remove(
    reviews: Map<(ProductId, CustomerId), ProductReview>,
    product: ProductId,
    customers: Seq<CustomerId>,
    who: CustomerId,
)
    requires
        customers.no_duplicates(),
        customers.contains(who),
    ensures
        rating_total(reviews.remove((product, who)), product, others(customers, who)) + rating_of(
            reviews,
            product,
            who,
        ) == rating_total(reviews, product, customers),
    decreases customers.len(),
{
    let after = reviews.remove((product, who));
    let front = customers.drop_last();
    let last = customers.last();
    assert(!front.contains(last)) by {
        if front.contains(last) {
            let i = choose|i: int| 0 <= i < front.len() && front[i] == last;
            assert(customers[i] == customers[customers.len() - 1]);
        }
    }
    lemma_others(front, who);
    if last == who {
        assert(others(customers, who) == others(front, who));
        assert(others(front, who) =~= front) by {
            lemma_others_absent(front, who);
        }
        lemma_total_frame(reviews, after, product, front);
    } else {
        assert(front.contains(who)) by {
            let i = choose|i: int| 0 <= i < customers.len() && customers[i] == who;
            assert(front[i] == who);
        }
        lemma_total_remove(reviews, product, front, who);
        let rest = others(front, who);
        assert(others(customers, who) == rest.push(last));
        assert(rest.push(last).drop_last() =~= rest);
    }
}

/// Removing a customer who is not in the list leaves the list as it is.
proof fn lemma_others_absent(list: Seq<CustomerId>, who: CustomerId)
    requires
        !list.contains(who),
    ensures
        others(list, who) == list,
    decreases list.len(),
{
    if list.len() > 0 {
        let front = list.drop_last();
        assert(!front.contains(who)) by {
            if front.contains(who) {
                let i = choose|i: int| 0 <= i < front.len() && front[i] == who;
                assert(list[i] == who);
            }
        }
        assert(list.last() != who) by {
            assert(list[list.len() - 1] == list.last());
        }
        lemma_others_absent(front, who);
        assert(front.push(list.last()) =~= list);
    }
}

/// The total of ratings is at most 255 for each customer.
proof fn lemma_total_bound(
    reviews: Map<(ProductId, CustomerId), ProductReview>,
    product: ProductId,
    customers: Seq<CustomerId>,
)
    ensures
        rating_total(reviews, product, customers) <= 255 * customers.len(),
    decreases customers.len(),
{
    if customers.len() > 0 {
        lemma_total_bound(reviews, product, customers.drop_last());
    }
}

/// The total of a list covers the rating of each customer in it.
proof fn lemma_total_covers(
    reviews: Map<(ProductId, CustomerId), ProductReview>,
    product: ProductId,
    customers: Seq<CustomerId>,
    who: CustomerId,
)
    requires
        customers.contains(who),
    ensures
        rating_of(reviews, product, who) <= rating_total(reviews, product, customers),
    decreases customers.len(),
{
    let front = customers.drop_last();
    if customers.last() != who {
        assert(front.contains(who)) by {
            let i = choose|i: int| 0 <= i < customers.len() && customers[i] == who;
            assert(front[i] == who);
        }
        lemma_total_covers(reviews, product, front, who);
    }
}

/// Submitting a review of a product keeps the list of its customers in step
/// with the stored reviews.
pub proof fn lemma_submission_keeps_index(
    s: MarketState,
    product: ProductId,
    customer: CustomerId,
    review: ProductReview,
)
    requires
        index_consistent(s),
    ensures
        index_consistent(s.product_review_submitted(product, customer, review)),
{
    let t = s.product_review_submitted(product, customer, review);
    assert forall|p: ProductId|
        {
            &&& (#[trigger] t.reviewers_of(p)).no_duplicates()
            &&& forall|c: CustomerId|
                t.reviewers_of(p).contains(c) <==> t.product_reviews.contains_key((p, c))
        } by {
        let before = s.reviewers_of(p);
        let after = t.reviewers_of(p);
        assert(before.no_duplicates());
        if p == product && !s.product_reviews.contains_key((product, customer)) {
            assert(after == before.push(customer));
            assert(!before.contains(customer));
            assert forall|c: CustomerId| after.contains(c) <==> before.contains(c) || c == customer by {
                if after.contains(c) {
                    let i = choose|i: int| 0 <= i < after.len() && after[i] == c;
                    if i < before.len() {
                        assert(before[i] == c);
                    }
                }
                if before.contains(c) {
                    let i = choose|i: int| 0 <= i < before.len() && before[i] == c;
                    assert(after[i] == c);
                }
                if c == customer {
                    assert(after[after.len() - 1] == c);
                }
            }
            assert forall|i: int, j: int|
                0 <= i < after.len() && 0 <= j < after.len() && i != j implies after[i]
                != after[j] by {
                if i < before.len() && j < before.len() {
                } else if i < before.len() {
                    assert(before.contains(before[i]));
                } else if j < before.len() {
                    assert(before.contains(before[j]));
                }
            }
        } else {
            assert(after == before);
        }
    }
}

/// Deleting a review of a product keeps the list of its customers in step
/// with the stored reviews.
pub proof fn lemma_deletion_keeps_index(s: MarketState, product: ProductId, customer: CustomerId)
    requires
        index_consistent(s),
    ensures
        index_consistent(s.product_review_deleted(product, customer)),
{
    let t = s.product_review_deleted(product, customer);
    assert forall|p: ProductId|
        {
            &&& (#[trigger] t.reviewers_of(p)).no_duplicates()
            &&& forall|c: CustomerId|
                t.reviewers_of(p).contains(c) <==> t.product_reviews.contains_key((p, c))
        } by {
        let before = s.reviewers_of(p);
        assert(before.no_duplicates());
        if p == product && s.product_reviews.contains_key((product, customer)) {
            lemma_others(before, customer);
            assert(t.reviewers_of(p) == others(before, customer));
        } else {
            assert(t.reviewers_of(p) == before);
        }
    }
}

/// Submitting a review of a product keeps the average of every product equal
/// to the number and the sum of its stored ratings, as long as the product
/// has room for one more review.
pub proof fn lemma_submission_keeps_averages(
    s: MarketState,
    product: ProductId,
    customer: CustomerId,
    review: ProductReview,
)
    requires
        index_consistent(s),
        averages_consistent(s),
        s.reviewers_of(product).len() < count_limit(),
    ensures
        averages_consistent(s.product_review_submitted(product, customer, review)),
{
    let t = s.product_review_submitted(product, customer, review);
    lemma_submission_keeps_index(s, product, customer, review);
    assert forall|p: ProductId|
        {
            &&& (#[trigger] t.product_average(p)).count == t.reviewers_of(p).len()
            &&& t.product_average(p).sum == rating_total(t.product_reviews, p, t.reviewers_of(p))
            &&& t.reviewers_of(p).len() <= count_limit()
        } by {
        let before = s.reviewers_of(p);
        assert(s.product_average(p).count == before.len());
        assert(before.no_duplicates());
        lemma_total_bound(s.product_reviews, p, before);
        if p == product {
            if s.product_reviews.contains_key((product, customer)) {
                assert(before.contains(customer));
                lemma_total_replace(s.product_reviews, product, before, customer, review);
                lemma_total_covers(s.product_reviews, product, before, customer);
                lemma_total_bound(t.product_reviews, p, before);
            } else {
                assert(!before.contains(customer));
                assert(t.reviewers_of(p) == before.push(customer));
                assert(before.push(customer).drop_last() =~= before);
                lemma_total_frame(s.product_reviews, t.product_reviews, product, before);
            }
        } else {
            assert(t.reviewers_of(p) == before);
            lemma_total_frame(s.product_reviews, t.product_reviews, p, before);
        }
    }
}

/// Deleting a review of a product keeps the average of every product equal
/// to the number and the sum of its stored ratings.
pub proof fn lemma_deletion_keeps_averages(s: MarketState, product: ProductId, customer: CustomerId)
    requires
        index_consistent(s),
        averages_consistent(s),
    ensures
        averages_consistent(s.product_review_deleted(product, customer)),
{
    let t = s.product_review_deleted(product, customer);
    assert forall|p: ProductId|
        {
            &&& (#[trigger] t.product_average(p)).count == t.reviewers_of(p).len()
            &&& t.product_average(p).sum == rating_total(t.product_reviews, p, t.reviewers_of(p))
            &&& t.reviewers_of(p).len() <= count_limit()
        } by {
        let before = s.reviewers_of(p);
        assert(s.product_average(p).count == before.len());
        assert(before.no_duplicates());
        if s.product_reviews.contains_key((product, customer)) {
            if p == product {
                assert(before.contains(customer));
                lemma_others(before, customer);
                lemma_total_remove(s.product_reviews, product, before, customer);
                lemma_total_covers(s.product_reviews, product, before, customer);
            } else {
                assert(t.reviewers_of(p) == before);
                lemma_total_frame(s.product_reviews, t.product_reviews, p, before);
            }
        }
    }
}

/// Recording the seller of a product and submitting or deleting the review
/// of a seller touch neither the reviews of products nor their averages.
pub proof fn lemma_seller_operations_keep_products(
    s: MarketState,
    product: ProductId,
    seller: crate::market::SellerId,
    customer: CustomerId,
    review: crate::market::SellerReview,
)
    requires
        index_consistent(s),
        averages_consistent(s),
    ensures
        index_consistent(s.with_product_seller(product, seller)),
        averages_consistent(s.with_product_seller(product, seller)),
        index_consistent(s.seller_review_submitted(seller, customer, review)),
        averages_consistent(s.seller_review_submitted(seller, customer, review)),
        index_consistent(s.seller_review_deleted(seller, customer)),
        averages_consistent(s.seller_review_deleted(seller, customer)),
{
    let a = s.with_product_seller(product, seller);
    let b = s.seller_review_submitted(seller, customer, review);
    let c = s.seller_review_deleted(seller, customer);
    assert forall|p: ProductId|
        {
            &&& (#[trigger] a.reviewers_of(p)).no_duplicates()
            &&& forall|c: CustomerId|
                a.reviewers_of(p).contains(c) <==> a.product_reviews.contains_key((p, c))
        } by {
        assert(a.reviewers_of(p) == s.reviewers_of(p));
    }
    assert forall|p: ProductId|
        {
            &&& (#[trigger] b.reviewers_of(p)).no_duplicates()
            &&& forall|c: CustomerId|
                b.reviewers_of(p).contains(c) <==> b.product_reviews.contains_key((p, c))
        } by {
        assert(b.reviewers_of(p) == s.reviewers_of(p));
    }
    assert forall|p: ProductId|
        {
            &&& (#[trigger] c.reviewers_of(p)).no_duplicates()
            &&& forall|k: CustomerId|
                c.reviewers_of(p).contains(k) <==> c.product_reviews.contains_key((p, k))
        } by {
        assert(c.reviewers_of(p) == s.reviewers_of(p));
    }
    assert forall|p: ProductId|
        {
            &&& (#[trigger] a.product_average(p)).count == a.reviewers_of(p).len()
            &&& a.product_average(p).sum == rating_total(a.product_reviews, p, a.reviewers_of(p))
            &&& a.reviewers_of(p).len() <= count_limit()
        } by {
        assert(a.product_average(p) == s.product_average(p));
    }
    assert forall|p: ProductId|
        {
            &&& (#[trigger] b.product_average(p)).count == b.reviewers_of(p).len()
            &&& b.product_average(p).sum == rating_total(b.product_reviews, p, b.reviewers_of(p))
            &&& b.reviewers_of(p).len() <= count_limit()
        } by {
        assert(b.product_average(p) == s.product_average(p));
    }
    assert forall|p: ProductId|
        {
            &&& (#[trigger] c.product_average(p)).count == c.reviewers_of(p).len()
            &&& c.product_average(p).sum == rating_total(c.product_reviews, p, c.reviewers_of(p))
            &&& c.reviewers_of(p).len() <= count_limit()
        } by {
        assert(c.product_average(p) == s.product_average(p));
    }
}

/// The empty market is consistent.
pub proof fn lemma_empty_market_consistent()
    ensures
        index_consistent(MarketState::empty()),
        averages_consistent(MarketState::empty()),
{
    let e = MarketState::empty();
    assert forall|p: ProductId|
        {
            &&& (#[trigger] e.reviewers_of(p)).no_duplicates()
            &&& forall|c: CustomerId|
                e.reviewers_of(p).contains(c) <==> e.product_reviews.contains_key((p, c))
        } by {}
}

} // verus!

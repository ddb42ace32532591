//! The fee ledger: collected amounts per (asset location, price), kept sorted
//! by that key with no empty bucket.
use crate::price::ExchangePrice;
use vstd::prelude::*;

verus! {

/// Fee collected in one asset at one exchange price.
#[derive(Clone, Copy, Debug, PartialEq, Eq, Structural)]
pub struct Bucket {
    pub location: u32,
    pub price: ExchangePrice,
    pub amount: u128,
}

/// The key order of buckets: by location, then by price.
pub open spec fn key_lt(l1: u32, p1: ExchangePrice, l2: u32, p2: ExchangePrice) -> bool {
    l1 < l2 || (l1 == l2 && p1.inner < p2.inner)
}

pub open spec fn bucket_lt(a: Bucket, b: Bucket) -> bool {
    key_lt(a.location, a.price, b.location, b.price)
}

pub open spec fn has_key(b: Bucket, location: u32, price: ExchangePrice) -> bool {
    b.location == location && b.price == price
}

/// Buckets strictly increase in key order (so keys are unique) and none is empty.
pub open spec fn buckets_wf(s: Seq<Bucket>) -> bool {
    &&& forall|i: int, j: int| 0 <= i < j < s.len() ==> bucket_lt(#[trigger] s[i], #[trigger] s[j])
    &&& forall|i: int| 0 <= i < s.len() ==> #[trigger] s[i].amount > 0
}

pub open spec fn holds_key(s: Seq<Bucket>, location: u32, price: ExchangePrice) -> bool {
    exists|i: int| 0 <= i < s.len() && has_key(#[trigger] s[i], location, price)
}

/// `new` is `old` with `amount` added (saturating) to the bucket of
/// (`location`, `price`), which is created where it is missing and `amount`
/// is not zero.
pub open spec fn credited(
    old: Seq<Bucket>,
    new: Seq<Bucket>,
    location: u32,
    price: ExchangePrice,
    amount: u128,
) -> bool {
    &&& buckets_wf(new)
    &&& if holds_key(old, location, price) {
        exists|i: int|
            0 <= i < old.len() && has_key(#[trigger] old[i], location, price) && new == old.update(
                i,
                Bucket { location, price, amount: old[i].amount.saturating_add(amount) },
            )
    } else if amount == 0 {
        new == old
    } else {
        exists|j: int|
            0 <= j <= old.len() && new == old.insert(j, Bucket { location, price, amount })
    }
}

/// What a refund takes from the first bucket: the converted fee, at most what
/// the bucket holds.
pub open spec fn refund_amount(first: Bucket, converted: u128) -> u128 {
    if converted < first.amount {
        converted
    } else {
        first.amount
    }
}

/// The buckets left after `taken` is removed from the first one.
pub open spec fn after_refund(s: Seq<Bucket>, taken: u128) -> Seq<Bucket> {
    if taken == s[0].amount {
        s.skip(1)
    } else {
        s.update(0, Bucket { amount: (s[0].amount - taken) as u128, ..s[0] })
    }
}

/// A session's fee ledger.
pub struct FeeLedger {
    buckets: Vec<Bucket>,
}

impl View for FeeLedger {
    type V = Seq<Bucket>;

    closed spec fn view(&self) -> Seq<Bucket> {
        self.buckets@
    }
}

impl FeeLedger {
    pub open spec fn wf(&self) -> bool {
        buckets_wf(self@)
    }

    /// An empty ledger.
    pub fn new() -> (r: FeeLedger)
        ensures
            r@ == Seq::<Bucket>::empty(),
            r.wf(),
    {
        FeeLedger { buckets: Vec::new() }
    }

    pub fn len(&self) -> (r: usize)
        ensures
            r == self@.len(),
    {
        self.buckets.len()
    }

    pub fn is_empty(&self) -> (r: bool)
        ensures
            r == (self@.len() == 0),
    {
        self.buckets.len() == 0
    }

    /// The buckets, in key order.
    pub fn buckets(&self) -> (r: Vec<Bucket>)
        ensures
            r@ == self@,
    {
        self.buckets.clone()
    }

    /// The amount held for (`location`, `price`); zero where there is no bucket.
    pub fn amount_of(&self, location: u32, price: ExchangePrice) -> (r: u128)
        requires
            self.wf(),
        ensures
            holds_key(self@, location, price) ==> exists|i: int|
                0 <= i < self@.len() && has_key(#[trigger] self@[i], location, price) && r
                    == self@[i].amount,
            !holds_key(self@, location, price) ==> r == 0,
    {
        let mut i: usize = 0;
        while i < self.buckets.len()
            invariant
                i <= self@.len(),
                forall|j: int| 0 <= j < i ==> !has_key(#[trigger] self@[j], location, price),
            decreases self@.len() - i,
        {
            let b = self.buckets[i];
            if b.location == location && b.price.inner == price.inner {
                return b.amount;
            }
            i = i + 1;
        }
        0
    }

    /// Adds `amount` to the bucket of (`location`, `price`), creating it where
    /// it is missing.
    pub fn credit(&mut self, location: u32, price: ExchangePrice, amount: u128)
        requires
            old(self).wf(),
        ensures
            credited(old(self)@, final(self)@, location, price, amount),
    {
        let ghost s = self@;
        let key = Bucket { location, price, amount };
        let n = self.buckets.len();
        let mut i: usize = 0;
        loop
            invariant
                self@ == s,
                key == (Bucket { location, price, amount }),
                buckets_wf(s),
                n == s.len(),
                i <= n,
                forall|j: int| 0 <= j < i ==> bucket_lt(#[trigger] s[j], key),
            ensures
                i <= n,
                forall|j: int| 0 <= j < i ==> bucket_lt(#[trigger] s[j], key),
                i == n || !bucket_lt(s[i as int], key),
            decreases n - i,
        {
            if i == n {
                break;
            }
            let b = self.buckets[i];
            assert(b == s[i as int]);
            if !(b.location < location || (b.location == location && b.price.inner < price.inner)) {
                break;
            }
            i = i + 1;
        }
        if i < n && self.buckets[i].location == location && self.buckets[i].price.inner == price.inner {
            let b = self.buckets[i];
            let total = b.amount.saturating_add(amount);
            self.buckets.set(i, Bucket { location, price, amount: total });
            assert(has_key(s[i as int], location, price));
            assert(self@ == s.update(i as int, Bucket { location, price, amount: s[i as int].amount.saturating_add(amount) }));
        } else {
            assert forall|k: int| 0 <= k < s.len() implies !has_key(#[trigger] s[k], location, price) by {
                if k >= i {
                    assert(k == i || bucket_lt(s[i as int], s[k]));
                }
            }
            if amount > 0 {
                self.buckets.insert(i, key);
                assert(self@ == s.insert(i as int, key));
                assert forall|a: int, b: int| 0 <= a < b < self@.len() implies bucket_lt(#[trigger] self@[a], #[trigger] self@[b]) by {
                    if b < i {
                    } else if a < i && b == i {
                    } else if a < i {
                        assert(self@[b] == s[b - 1]);
                    } else if a == i {
                        assert(self@[b] == s[b - 1]);
                        assert(b - 1 == i || bucket_lt(s[i as int], s[b - 1]));
                    } else {
                        assert(self@[a] == s[a - 1] && self@[b] == s[b - 1]);
                    }
                }
            }
        }
    }

    /// The first bucket in key order, if any.
    pub fn first(&self) -> (r: Option<Bucket>)
        ensures
            r == (if self@.len() == 0 {
                None::<Bucket>
            } else {
                Some(self@[0])
            }),
    {
        if self.buckets.len() == 0 {
            None
        } else {
            Some(self.buckets[0])
        }
    }

    /// Takes up to `converted` from the first bucket, removing the bucket once
    /// it is empty; returns what was taken.
    pub fn take_from_first(&mut self, converted: u128) -> (r: u128)
        requires
            old(self).wf(),
            old(self)@.len() > 0,
        ensures
            r == refund_amount(old(self)@[0], converted),
            final(self)@ == after_refund(old(self)@, r),
            final(self).wf(),
    {
        let ghost s = self@;
        let b = self.buckets[0];
        let taken = if converted < b.amount { converted } else { b.amount };
        if taken == b.amount {
            self.buckets.remove(0);
            assert(self@ =~= s.skip(1));
        } else {
            self.buckets.set(0, Bucket { amount: b.amount - taken, ..b });
            assert(forall|j: int| 0 <= j < s.len() ==> #[trigger] self@[j].location == s[j].location
                && self@[j].price == s[j].price);
        }
        taken
    }

    /// Empties the ledger and returns its buckets, in key order.
    pub fn drain(&mut self) -> (r: Vec<Bucket>)
        ensures
            r@ == old(self)@,
            final(self)@ == Seq::<Bucket>::empty(),
            final(self).wf(),
    {
        let r = self.buckets.clone();
        self.buckets = Vec::new();
        proof {
            assert(r@ =~= old(self)@);
        }
        r
    }
}

/// Crediting the same key twice, starting from an empty ledger, leaves a
/// single bucket whose amount is the sum of both credits.
pub proof fn lemma_credit_twice_one_bucket(
    first: Seq<Bucket>,
    second: Seq<Bucket>,
    location: u32,
    price: ExchangePrice,
    amount: u128,
)
    requires
        amount > 0,
        credited(Seq::<Bucket>::empty(), first, location, price, amount),
        credited(first, second, location, price, amount),
    ensures
        second == seq![Bucket { location, price, amount: amount.saturating_add(amount) }],
{
    assert(first == seq![Bucket { location, price, amount }]);
    assert(has_key(first[0], location, price));
}

/// Credits to two different locations, starting from an empty ledger, make
/// two buckets; refunding all of the first one leaves the other in place.
pub proof fn lemma_two_assets_two_buckets(
    first: Seq<Bucket>,
    second: Seq<Bucket>,
    location_a: u32,
    price_a: ExchangePrice,
    amount_a: u128,
    location_b: u32,
    price_b: ExchangePrice,
    amount_b: u128,
)
    requires
        amount_a > 0,
        amount_b > 0,
        location_a != location_b,
        credited(Seq::<Bucket>::empty(), first, location_a, price_a, amount_a),
        credited(first, second, location_b, price_b, amount_b),
    ensures
        second.len() == 2,
        after_refund(second, second[0].amount).len() == 1,
        after_refund(second, second[0].amount)[0] == second[1],
        second.contains(Bucket { location: location_a, price: price_a, amount: amount_a }),
        second.contains(Bucket { location: location_b, price: price_b, amount: amount_b }),
{
    let a = Bucket { location: location_a, price: price_a, amount: amount_a };
    let b = Bucket { location: location_b, price: price_b, amount: amount_b };
    assert(first == seq![a]);
    assert(!holds_key(first, location_b, price_b));
    let j = choose|j: int| 0 <= j <= first.len() && second == first.insert(j, b);
    if j == 0 {
        assert(second[1] == a);
        assert(second[0] == b);
    } else {
        assert(second[0] == a);
        assert(second[1] == b);
    }
    assert(after_refund(second, second[0].amount) =~= seq![second[1]]);
}

} // verus!

//! A weight trader that takes fees in any accepted fungible asset, keeps them
//! in a fee ledger, refunds them one asset at a time and hands what is left
//! over as revenue when the session ends.
use crate::ledger::{after_refund, buckets_wf, credited, refund_amount, Bucket, FeeLedger};
use crate::price::{saturated_scaled, scaled, ExchangePrice};
use crate::strategy::{LocationConverter, PriceResolver, WeightToFee};
use vstd::prelude::*;

verus! {

/// How an offered asset is identified.
#[derive(Clone, Copy, Debug, PartialEq, Eq, Structural)]
pub enum AssetRef {
    /// By its location.
    Concrete(u32),
    /// By an abstract name that carries no location.
    Abstract(u32),
}

/// What is offered of an asset.
#[derive(Clone, Copy, Debug, PartialEq, Eq, Structural)]
pub enum Fungibility {
    /// A quantity of a fungible asset.
    Fungible(u128),
    /// One instance of a non-fungible asset.
    NonFungible(u128),
}

/// One asset offered in a payment.
#[derive(Clone, Copy, Debug, PartialEq, Eq, Structural)]
pub struct OfferedAsset {
    pub id: AssetRef,
    pub fun: Fungibility,
}

/// Why weight could not be bought.
#[derive(Clone, Copy, Debug, PartialEq, Eq, Structural)]
pub enum TraderError {
    /// No fungible asset was offered, or its location, id or price is unknown.
    AssetNotFound,
    /// The fee, converted to the asset, does not fit in a `u128`.
    Overflow,
    /// Less of the asset was offered than the fee asks.
    TooExpensive,
}

/// An asset that can pay for weight: a quantity of a fungible asset that is
/// identified by its location.
pub open spec fn is_payable(a: OfferedAsset) -> bool {
    a.fun is Fungible && a.id is Concrete
}

/// The quantity offered of a fungible asset.
pub open spec fn held(a: OfferedAsset) -> u128 {
    match a.fun {
        Fungibility::Fungible(n) => n,
        Fungibility::NonFungible(_) => 0,
    }
}

/// Index `i` holds the first payable asset of `s`.
pub open spec fn is_first_payable(s: Seq<OfferedAsset>, i: int) -> bool {
    &&& 0 <= i < s.len()
    &&& is_payable(s[i])
    &&& forall|j: int| 0 <= j < i ==> !is_payable(#[trigger] s[j])
}

pub open spec fn no_payable(s: Seq<OfferedAsset>) -> bool {
    forall|j: int| 0 <= j < s.len() ==> !is_payable(#[trigger] s[j])
}

/// `s` with `amount` taken from the fungible asset at `i`, which is removed
/// once nothing of it is left.
pub open spec fn deducted(s: Seq<OfferedAsset>, i: int, amount: u128) -> Seq<OfferedAsset> {
    if held(s[i]) == amount {
        s.remove(i)
    } else {
        s.update(i, OfferedAsset { id: s[i].id, fun: Fungibility::Fungible((held(s[i]) - amount) as u128) })
    }
}

/// The revenue that a bucket stands for.
pub open spec fn revenue_of(b: Bucket) -> OfferedAsset {
    OfferedAsset { id: AssetRef::Concrete(b.location), fun: Fungibility::Fungible(b.amount) }
}

/// Buys and refunds weight with fees in several assets.
pub struct MultiCurrencyTrader<F, P, C> {
    weight: u64,
    paid_assets: FeeLedger,
    fee: F,
    prices: P,
    convert: C,
}

impl<F: WeightToFee, P: PriceResolver, C: LocationConverter> MultiCurrencyTrader<F, P, C> {
    /// The weight bought and not refunded.
    pub closed spec fn bought(&self) -> u64 {
        self.weight
    }

    /// The fee ledger, in key order.
    pub closed spec fn ledger(&self) -> Seq<Bucket> {
        self.paid_assets@
    }

    pub closed spec fn fee_formula(&self) -> F {
        self.fee
    }

    pub closed spec fn price_resolver(&self) -> P {
        self.prices
    }

    pub closed spec fn converter(&self) -> C {
        self.convert
    }

    pub open spec fn wf(&self) -> bool {
        buckets_wf(self.ledger())
    }

    /// The location of `asset` and its price, where the asset is concrete and
    /// both its asset id and that id's price are known.
    pub open spec fn asset_and_price(&self, asset: OfferedAsset) -> Option<(u32, ExchangePrice)> {
        match asset.id {
            AssetRef::Concrete(location) => match self.converter().asset_id_of(location) {
                None => None,
                Some(asset_id) => match self.price_resolver().price_of(asset_id) {
                    None => None,
                    Some(price) => Some((location, price)),
                },
            },
            AssetRef::Abstract(_) => None,
        }
    }

    /// The bucket key and the amount that buying `weight` with `asset` takes,
    /// or the error that it fails with.
    pub open spec fn quote(&self, weight: u64, asset: OfferedAsset) -> Result<
        (u32, ExchangePrice, u128),
        TraderError,
    > {
        match self.asset_and_price(asset) {
            None => Err(TraderError::AssetNotFound),
            Some((location, price)) => {
                let cost = scaled(price.inner, self.fee_formula().fee_of(weight));
                if cost > u128::MAX as int {
                    Err(TraderError::Overflow)
                } else if held(asset) < cost {
                    Err(TraderError::TooExpensive)
                } else {
                    Ok((location, price, cost as u128))
                }
            },
        }
    }

    /// A trader with nothing bought.
    pub fn new(fee: F, prices: P, convert: C) -> (r: Self)
        ensures
            r.wf(),
            r.bought() == 0,
            r.ledger() == Seq::<Bucket>::empty(),
            r.fee_formula() == fee,
            r.price_resolver() == prices,
            r.converter() == convert,
    {
        MultiCurrencyTrader { weight: 0, paid_assets: FeeLedger::new(), fee, prices, convert }
    }

    /// The weight bought and not refunded.
    pub fn weight(&self) -> (r: u64)
        ensures
            r == self.bought(),
    {
        self.weight
    }

    /// The fee ledger's buckets, in key order.
    pub fn paid_assets(&self) -> (r: Vec<Bucket>)
        ensures
            r@ == self.ledger(),
    {
        self.paid_assets.buckets()
    }

    /// The index of the first payable asset of `payment`, if there is one.
    fn first_payable(payment: &Vec<OfferedAsset>) -> (r: Option<usize>)
        ensures
            r matches Some(i) ==> is_first_payable(payment@, i as int),
            r is None ==> no_payable(payment@),
    {
        let mut i: usize = 0;
        while i < payment.len()
            invariant
                i <= payment@.len(),
                forall|j: int| 0 <= j < i ==> !is_payable(#[trigger] payment@[j]),
            decreases payment@.len() - i,
        {
            let asset = payment[i];
            if let (AssetRef::Concrete(_), Fungibility::Fungible(_)) = (asset.id, asset.fun) {
                return Some(i);
            }
            i = i + 1;
        }
        None
    }

    /// The index of the first payable asset of `payment`, with its location
    /// and price where both are known.
    fn get_asset_and_price(&self, payment: &Vec<OfferedAsset>) -> (r: Option<(usize, u32, ExchangePrice)>)
        ensures
            no_payable(payment@) ==> r is None,
            r matches Some((i, _, _)) ==> is_first_payable(payment@, i as int),
            forall|i: int| #[trigger]
                is_first_payable(payment@, i) ==> match self.asset_and_price(payment@[i]) {
                    None => r is None,
                    Some((location, price)) => r == Some((i as usize, location, price)),
                },
    {
        let i = match Self::first_payable(payment) {
            Some(i) => i,
            None => return None,
        };
        let location = match payment[i].id {
            AssetRef::Concrete(location) => location,
            AssetRef::Abstract(_) => return None,
        };
        let asset_id = match self.convert.convert(location) {
            Some(asset_id) => asset_id,
            None => return None,
        };
        let price = match self.prices.price(asset_id) {
            Some(price) => price,
            None => return None,
        };
        proof {
            assert(is_first_payable(payment@, i as int));
        }
        Some((i, location, price))
    }

    /// Buys `weight` with the first payable asset of `payment`, passing over
    /// abstract and non-fungible ones, and returns what is left of the
    /// payment. On failure nothing changes.
    pub fn buy_weight(&mut self, weight: u64, payment: Vec<OfferedAsset>) -> (r: Result<
        Vec<OfferedAsset>,
        TraderError,
    >)
        requires
            old(self).wf(),
        ensures
            final(self).wf(),
            final(self).fee_formula() == old(self).fee_formula(),
            final(self).price_resolver() == old(self).price_resolver(),
            final(self).converter() == old(self).converter(),
            no_payable(payment@) ==> r == Err::<Vec<OfferedAsset>, TraderError>(
                TraderError::AssetNotFound,
            ),
            forall|i: int| #[trigger]
                is_first_payable(payment@, i) ==> match old(self).quote(weight, payment@[i]) {
                    Err(e) => r == Err::<Vec<OfferedAsset>, TraderError>(e),
                    Ok((location, price, amount)) => {
                        &&& r matches Ok(rest) && rest@ == deducted(payment@, i, amount)
                        &&& final(self).bought() == old(self).bought().saturating_add(weight)
                        &&& credited(old(self).ledger(), final(self).ledger(), location, price, amount)
                    },
                },
            r is Err ==> final(self).bought() == old(self).bought() && final(self).ledger() == old(
                self,
            ).ledger(),
    {
        let (i, location, price) = match self.get_asset_and_price(&payment) {
            Some(found) => found,
            None => return Err(TraderError::AssetNotFound),
        };
        let asset = payment[i];
        let fee = self.fee.weight_to_fee(weight);
        let amount = match price.checked_mul_int(fee) {
            Some(amount) => amount,
            None => return Err(TraderError::Overflow),
        };
        let offered = match asset.fun {
            Fungibility::Fungible(n) => n,
            Fungibility::NonFungible(_) => return Err(TraderError::AssetNotFound),
        };
        if offered < amount {
            return Err(TraderError::TooExpensive);
        }
        let mut rest = payment;
        if offered == amount {
            rest.remove(i);
        } else {
            rest.set(i, OfferedAsset { id: asset.id, fun: Fungibility::Fungible(offered - amount) });
        }
        self.weight = self.weight.saturating_add(weight);
        self.paid_assets.credit(location, price, amount);
        proof {
            assert(is_first_payable(payment@, i as int));
        }
        Ok(rest)
    }

    /// Returns up to `weight` of the weight bought, refunding its fee from the
    /// first bucket of the ledger in key order; `None` if the ledger is empty.
    /// Only one asset is refunded per call.
    pub fn refund_weight(&mut self, weight: u64) -> (r: Option<OfferedAsset>)
        requires
            old(self).wf(),
        ensures
            final(self).wf(),
            final(self).fee_formula() == old(self).fee_formula(),
            final(self).price_resolver() == old(self).price_resolver(),
            final(self).converter() == old(self).converter(),
            ({
                let returned = if weight < old(self).bought() {
                    weight
                } else {
                    old(self).bought()
                };
                &&& final(self).bought() == old(self).bought() - returned
                &&& old(self).ledger().len() == 0 ==> r is None && final(self).ledger() == old(
                    self,
                ).ledger()
                &&& old(self).ledger().len() > 0 ==> {
                    let first = old(self).ledger()[0];
                    let taken = refund_amount(
                        first,
                        saturated_scaled(first.price.inner, old(self).fee_formula().fee_of(returned)),
                    );
                    &&& r == Some(
                        OfferedAsset {
                            id: AssetRef::Concrete(first.location),
                            fun: Fungibility::Fungible(taken),
                        },
                    )
                    &&& final(self).ledger() == after_refund(old(self).ledger(), taken)
                }
            }),
    {
        let returned = if weight < self.weight {
            weight
        } else {
            self.weight
        };
        self.weight = self.weight - returned;
        let fee = self.fee.weight_to_fee(returned);
        match self.paid_assets.first() {
            None => None,
            Some(first) => {
                let converted = first.price.saturating_mul_int(fee);
                let taken = self.paid_assets.take_from_first(converted);
                Some(OfferedAsset { id: AssetRef::Concrete(first.location), fun: Fungibility::Fungible(taken) })
            },
        }
    }

    /// Empties the ledger and returns its buckets as revenue, one asset per
    /// bucket, in key order.
    pub fn flush(&mut self) -> (r: Vec<OfferedAsset>)
        requires
            old(self).wf(),
        ensures
            final(self).wf(),
            final(self).fee_formula() == old(self).fee_formula(),
            final(self).price_resolver() == old(self).price_resolver(),
            final(self).converter() == old(self).converter(),
            final(self).bought() == old(self).bought(),
            final(self).ledger() == Seq::<Bucket>::empty(),
            r@ == old(self).ledger().map_values(|b: Bucket| revenue_of(b)),
    {
        let buckets = self.paid_assets.drain();
        let mut revenue: Vec<OfferedAsset> = Vec::new();
        let mut i: usize = 0;
        while i < buckets.len()
            invariant
                i <= buckets@.len(),
                revenue@ == buckets@.take(i as int).map_values(|b: Bucket| revenue_of(b)),
            decreases buckets@.len() - i,
        {
            let b = buckets[i];
            revenue.push(OfferedAsset { id: AssetRef::Concrete(b.location), fun: Fungibility::Fungible(b.amount) });
            assert(buckets@.take(i + 1) =~= buckets@.take(i as int).push(b));
            i = i + 1;
        }
        assert(buckets@.take(i as int) =~= buckets@);
        revenue
    }

    /// A payment of exactly the cost of `weight` in an accepted asset buys it
    /// and leaves nothing over.
    pub proof fn lemma_exact_payment_buys(
        t: Self,
        weight: u64,
        location: u32,
        asset_id: u32,
        price: ExchangePrice,
        amount: u128,
    )
        requires
            t.converter().asset_id_of(location) == Some(asset_id),
            t.price_resolver().price_of(asset_id) == Some(price),
            scaled(price.inner, t.fee_formula().fee_of(weight)) == amount,
        ensures
            ({
                let payment = seq![
                    OfferedAsset {
                        id: AssetRef::Concrete(location),
                        fun: Fungibility::Fungible(amount),
                    },
                ];
                &&& is_first_payable(payment, 0)
                &&& t.quote(weight, payment[0]) == Ok::<(u32, ExchangePrice, u128), TraderError>(
                    (location, price, amount),
                )
                &&& deducted(payment, 0, amount) == Seq::<OfferedAsset>::empty()
            }),
    {
        let payment = seq![
            OfferedAsset { id: AssetRef::Concrete(location), fun: Fungibility::Fungible(amount) },
        ];
        assert(payment.remove(0) =~= Seq::<OfferedAsset>::empty());
    }

    /// Offering less of an accepted asset than the cost of `weight` fails with
    /// `TooExpensive`.
    pub proof fn lemma_short_payment_too_expensive(
        t: Self,
        weight: u64,
        location: u32,
        asset_id: u32,
        price: ExchangePrice,
        offered: u128,
    )
        requires
            t.converter().asset_id_of(location) == Some(asset_id),
            t.price_resolver().price_of(asset_id) == Some(price),
            scaled(price.inner, t.fee_formula().fee_of(weight)) <= u128::MAX as int,
            offered < scaled(price.inner, t.fee_formula().fee_of(weight)),
        ensures
            t.quote(
                weight,
                OfferedAsset { id: AssetRef::Concrete(location), fun: Fungibility::Fungible(offered) },
            ) == Err::<(u32, ExchangePrice, u128), TraderError>(TraderError::TooExpensive),
    {
    }

    /// An asset whose location has no asset id, or whose id has no price,
    /// fails with `AssetNotFound`; so does a payment with no fungible concrete
    /// asset.
    pub proof fn lemma_unknown_asset_not_found(
        t: Self,
        weight: u64,
        asset: OfferedAsset,
        payment: Seq<OfferedAsset>,
    )
        requires
            asset.id matches AssetRef::Concrete(location) && match t.converter().asset_id_of(location) {
                None => true,
                Some(asset_id) => t.price_resolver().price_of(asset_id) is None,
            },
            forall|i: int|
                0 <= i < payment.len() ==> #[trigger] payment[i].fun is NonFungible || payment[i].id is Abstract,
        ensures
            t.quote(weight, asset) == Err::<(u32, ExchangePrice, u128), TraderError>(
                TraderError::AssetNotFound,
            ),
            no_payable(payment),
    {
    }

    /// An accepted asset whose converted cost does not fit in a `u128` fails
    /// with `Overflow`, whatever quantity is offered.
    pub proof fn lemma_cost_overflow(
        t: Self,
        weight: u64,
        location: u32,
        asset_id: u32,
        price: ExchangePrice,
        offered: u128,
    )
        requires
            t.converter().asset_id_of(location) == Some(asset_id),
            t.price_resolver().price_of(asset_id) == Some(price),
            scaled(price.inner, t.fee_formula().fee_of(weight)) > u128::MAX as int,
        ensures
            t.quote(
                weight,
                OfferedAsset { id: AssetRef::Concrete(location), fun: Fungibility::Fungible(offered) },
            ) == Err::<(u32, ExchangePrice, u128), TraderError>(TraderError::Overflow),
    {
    }

    /// Refunding `weight` right after a trader's only purchase, of `weight`
    /// at a non-zero cost, returns the whole cost in the asset paid and leaves
    /// the ledger empty.
    pub proof fn lemma_refund_after_single_buy(
        before: Self,
        after: Self,
        weight: u64,
        location: u32,
        price: ExchangePrice,
        cost: u128,
    )
        requires
            before.bought() == 0,
            before.ledger() == Seq::<Bucket>::empty(),
            after.bought() == before.bought().saturating_add(weight),
            after.fee_formula() == before.fee_formula(),
            credited(before.ledger(), after.ledger(), location, price, cost),
            cost == scaled(price.inner, before.fee_formula().fee_of(weight)),
            cost > 0,
        ensures
            ({
                let returned = if weight < after.bought() {
                    weight
                } else {
                    after.bought()
                };
                let first = after.ledger()[0];
                let taken = refund_amount(
                    first,
                    saturated_scaled(first.price.inner, after.fee_formula().fee_of(returned)),
                );
                &&& returned == weight
                &&& after.ledger().len() == 1
                &&& first.location == location
                &&& taken == cost
                &&& after_refund(after.ledger(), taken) == Seq::<Bucket>::empty()
            }),
    {
        let b = Bucket { location, price, amount: cost };
        assert(after.ledger() == seq![b]);
        assert(after_refund(after.ledger(), cost) =~= Seq::<Bucket>::empty());
    }
}

/// Flushing hands over each bucket as revenue once, in ledger order, and
/// empties the ledger, so that a second flush hands over nothing.
pub proof fn lemma_flush_twice(
    ledger: Seq<Bucket>,
    first: Seq<OfferedAsset>,
    second: Seq<OfferedAsset>,
)
    requires
        first == ledger.map_values(|b: Bucket| revenue_of(b)),
        second == Seq::<Bucket>::empty().map_values(|b: Bucket| revenue_of(b)),
    ensures
        first.len() == ledger.len(),
        forall|i: int| 0 <= i < ledger.len() ==> #[trigger] first[i] == revenue_of(ledger[i]),
        second.len() == 0,
{
}

} // verus!

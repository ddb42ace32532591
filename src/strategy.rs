//! The collaborators a trader is built from: the fee formula, the price
//! resolver and the conversion from asset locations to asset ids, with
//! reference implementations of each.
use crate::price::ExchangePrice;
use vstd::prelude::*;

verus! {

/// Maps an amount of weight to a fee in canonical units.
pub trait WeightToFee {
    spec fn fee_of(&self, weight: u64) -> u128;

    fn weight_to_fee(&self, weight: u64) -> (r: u128)
        ensures
            r == self.fee_of(weight),
    ;
}

/// Maps an asset id to its current exchange price, or to `None` if the asset
/// is not accepted.
pub trait PriceResolver {
    spec fn price_of(&self, asset_id: u32) -> Option<ExchangePrice>;

    fn price(&self, asset_id: u32) -> (r: Option<ExchangePrice>)
        ensures
            r == self.price_of(asset_id),
    ;
}

/// Maps a concrete asset location to the asset id it stands for, if any.
pub trait LocationConverter {
    spec fn asset_id_of(&self, location: u32) -> Option<u32>;

    fn convert(&self, location: u32) -> (r: Option<u32>)
        ensures
            r == self.asset_id_of(location),
    ;
}

/// The fee equals the weight.
#[derive(Clone, Copy, Debug, PartialEq, Eq)]
pub struct IdentityFee;

impl WeightToFee for IdentityFee {
    open spec fn fee_of(&self, weight: u64) -> u128 {
        weight as u128
    }

    fn weight_to_fee(&self, weight: u64) -> (r: u128) {
        weight as u128
    }
}

/// The fee is the weight times a constant, saturating at `u128::MAX`.
#[derive(Clone, Copy, Debug, PartialEq, Eq)]
pub struct ConstantMultiplier {
    pub multiplier: u128,
}

impl WeightToFee for ConstantMultiplier {
    open spec fn fee_of(&self, weight: u64) -> u128 {
        if weight as int * self.multiplier as int <= u128::MAX as int {
            (weight as int * self.multiplier as int) as u128
        } else {
            u128::MAX
        }
    }

    fn weight_to_fee(&self, weight: u64) -> (r: u128) {
        match (weight as u128).checked_mul(self.multiplier) {
            Some(fee) => fee,
            None => u128::MAX,
        }
    }
}

/// The price of the first entry for `asset_id` in `entries`.
pub open spec fn table_price(entries: Seq<(u32, ExchangePrice)>, asset_id: u32) -> Option<
    ExchangePrice,
>
    decreases entries.len(),
{
    if entries.len() == 0 {
        None
    } else if entries[0].0 == asset_id {
        Some(entries[0].1)
    } else {
        table_price(entries.drop_first(), asset_id)
    }
}

/// A fixed table of accepted assets and their prices.
#[derive(Debug)]
pub struct PriceTable {
    pub entries: Vec<(u32, ExchangePrice)>,
}

impl PriceResolver for PriceTable {
    open spec fn price_of(&self, asset_id: u32) -> Option<ExchangePrice> {
        table_price(self.entries@, asset_id)
    }

    fn price(&self, asset_id: u32) -> (r: Option<ExchangePrice>) {
        let ghost s = self.entries@;
        let mut i: usize = 0;
        assert(s.skip(0) =~= s);
        while i < self.entries.len()
            invariant
                s == self.entries@,
                i <= s.len(),
                table_price(s, asset_id) == table_price(s.skip(i as int), asset_id),
            decreases s.len() - i,
        {
            let (id, price) = self.entries[i];
            assert(s.skip(i as int)[0] == s[i as int]);
            if id == asset_id {
                return Some(price);
            }
            assert(s.skip(i as int).drop_first() =~= s.skip(i + 1));
            i = i + 1;
        }
        assert(s.skip(i as int).len() == 0);
        None
    }
}

/// Locations that stand for themselves as asset ids; any other location has
/// no asset id.
#[derive(Debug)]
pub struct KnownLocations {
    pub locations: Vec<u32>,
}

impl LocationConverter for KnownLocations {
    open spec fn asset_id_of(&self, location: u32) -> Option<u32> {
        if self.locations@.contains(location) {
            Some(location)
        } else {
            None
        }
    }

    fn convert(&self, location: u32) -> (r: Option<u32>) {
        let mut i: usize = 0;
        while i < self.locations.len()
            invariant
                i <= self.locations@.len(),
                forall|j: int| 0 <= j < i ==> self.locations@[j] != location,
            decreases self.locations@.len() - i,
        {
            if self.locations[i] == location {
                return Some(location);
            }
            i = i + 1;
        }
        None
    }
}

} // verus!

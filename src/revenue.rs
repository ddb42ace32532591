//! Turning collected revenue into a deposit for the fee receiver.
use crate::strategy::LocationConverter;
use crate::trader::{AssetRef, Fungibility, OfferedAsset};
use vstd::prelude::*;

verus! {

/// A deposit of `amount` of `asset_id` to the account `receiver`.
#[derive(Clone, Copy, Debug, PartialEq, Eq, Structural)]
pub struct FeeDeposit {
    pub receiver: u32,
    pub asset_id: u32,
    pub amount: u128,
}

/// Sends revenue to the fee receiver. Only concrete fungible assets whose
/// location has an asset id are accepted; anything else is dropped.
pub struct ToFeeReceiver<C> {
    convert: C,
}

impl<C: LocationConverter> ToFeeReceiver<C> {
    pub closed spec fn converter(&self) -> C {
        self.convert
    }

    pub fn new(convert: C) -> (r: Self)
        ensures
            r.converter() == convert,
    {
        ToFeeReceiver { convert }
    }

    /// The deposit that `asset` makes to `fee_receiver`, or `None` where the
    /// asset is not concrete and fungible or its location has no asset id.
    pub fn take_revenue(&self, asset: OfferedAsset, fee_receiver: u32) -> (r: Option<FeeDeposit>)
        ensures
            r == (match (asset.id, asset.fun) {
                (AssetRef::Concrete(location), Fungibility::Fungible(amount)) => match self.converter().asset_id_of(location) {
                    Some(asset_id) => Some(FeeDeposit { receiver: fee_receiver, asset_id, amount }),
                    None => None::<FeeDeposit>,
                },
                _ => None::<FeeDeposit>,
            }),
    {
        match (asset.id, asset.fun) {
            (AssetRef::Concrete(location), Fungibility::Fungible(amount)) => match self.convert.convert(location) {
                Some(asset_id) => Some(FeeDeposit { receiver: fee_receiver, asset_id, amount }),
                None => None,
            },
            _ => None,
        }
    }
}

} // verus!

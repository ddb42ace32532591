use hydradx_adapters::ledger::{Bucket, FeeLedger};
use hydradx_adapters::price::{ExchangePrice, PRICE_ACCURACY};
use hydradx_adapters::revenue::ToFeeReceiver;
use hydradx_adapters::strategy::{
    ConstantMultiplier, IdentityFee, KnownLocations, LocationConverter, PriceResolver, PriceTable, WeightToFee,
};
use hydradx_adapters::trader::{AssetRef, Fungibility, MultiCurrencyTrader, OfferedAsset, TraderError};

const A: u32 = 1;
const B: u32 = 2;
const HALF: u128 = PRICE_ACCURACY / 2;

fn fungible(location: u32, amount: u128) -> OfferedAsset {
    OfferedAsset { id: AssetRef::Concrete(location), fun: Fungibility::Fungible(amount) }
}

fn two_asset_trader() -> MultiCurrencyTrader<IdentityFee, PriceTable, KnownLocations> {
    let prices = PriceTable {
        entries: vec![
            (A, ExchangePrice::from_inner(PRICE_ACCURACY)),
            (B, ExchangePrice::from_inner(HALF)),
        ],
    };
    MultiCurrencyTrader::new(IdentityFee, prices, KnownLocations { locations: vec![A, B] })
}

#[test]
fn scenario_two_assets_refunded_in_key_order() {
    let mut trader = two_asset_trader();
    assert_eq!(trader.buy_weight(1_000_000, vec![fungible(A, 1_000_000)]), Ok(vec![]));
    assert_eq!(
        trader.paid_assets(),
        vec![Bucket { location: A, price: ExchangePrice::from_inner(PRICE_ACCURACY), amount: 1_000_000 }]
    );
    assert_eq!(trader.buy_weight(1_000_000, vec![fungible(B, 500_000)]), Ok(vec![]));
    assert_eq!(trader.paid_assets().len(), 2);
    assert_eq!(trader.weight(), 2_000_000);
    assert_eq!(trader.refund_weight(1_000_000), Some(fungible(A, 1_000_000)));
    assert_eq!(trader.paid_assets().len(), 1);
    assert_eq!(trader.refund_weight(1_000_000), Some(fungible(B, 500_000)));
    assert!(trader.paid_assets().is_empty());
    assert_eq!(trader.weight(), 0);
}

#[test]
fn key_order_not_purchase_order() {
    let mut trader = two_asset_trader();
    assert_eq!(trader.buy_weight(1_000_000, vec![fungible(B, 500_000)]), Ok(vec![]));
    assert_eq!(trader.buy_weight(1_000_000, vec![fungible(A, 1_000_000)]), Ok(vec![]));
    assert_eq!(trader.refund_weight(1_000_000), Some(fungible(A, 1_000_000)));
}

#[test]
fn too_expensive_leaves_state_unchanged() {
    let mut trader = two_asset_trader();
    assert_eq!(trader.buy_weight(10, vec![fungible(A, 10)]), Ok(vec![]));
    assert_eq!(trader.buy_weight(1_000, vec![fungible(A, 999)]), Err(TraderError::TooExpensive));
    assert_eq!(trader.weight(), 10);
    assert_eq!(
        trader.paid_assets(),
        vec![Bucket { location: A, price: ExchangePrice::from_inner(PRICE_ACCURACY), amount: 10 }]
    );
}

#[test]
fn remainder_keeps_the_rest_of_the_payment() {
    let mut trader = two_asset_trader();
    let nft = OfferedAsset { id: AssetRef::Concrete(A), fun: Fungibility::NonFungible(7) };
    let res = trader.buy_weight(1_000, vec![nft, fungible(B, 2_000), fungible(A, 5)]);
    assert_eq!(res, Ok(vec![nft, fungible(B, 1_500), fungible(A, 5)]));
    assert_eq!(trader.paid_assets()[0].amount, 500);
}

#[test]
fn empty_or_abstract_payment_not_found() {
    let mut trader = two_asset_trader();
    assert_eq!(trader.buy_weight(1_000, vec![]), Err(TraderError::AssetNotFound));
    let abstract_asset = OfferedAsset { id: AssetRef::Abstract(A), fun: Fungibility::Fungible(1_000) };
    assert_eq!(trader.buy_weight(1_000, vec![abstract_asset]), Err(TraderError::AssetNotFound));
    let unpriced = MultiCurrencyTrader::new(IdentityFee, PriceTable { entries: vec![] }, KnownLocations {
        locations: vec![A],
    });
    let mut unpriced = unpriced;
    assert_eq!(unpriced.buy_weight(1_000, vec![fungible(A, 1_000)]), Err(TraderError::AssetNotFound));
}

#[test]
fn zero_cost_buy_adds_no_bucket() {
    let mut trader = two_asset_trader();
    assert_eq!(trader.buy_weight(0, vec![fungible(A, 1_000)]), Ok(vec![fungible(A, 1_000)]));
    assert!(trader.paid_assets().is_empty());
}

#[test]
fn partial_and_clamped_refunds() {
    let mut trader = two_asset_trader();
    assert_eq!(trader.buy_weight(1_000_000, vec![fungible(A, 1_000_000)]), Ok(vec![]));
    assert_eq!(trader.refund_weight(400_000), Some(fungible(A, 400_000)));
    assert_eq!(trader.weight(), 600_000);
    assert_eq!(trader.paid_assets()[0].amount, 600_000);
    assert_eq!(trader.refund_weight(5_000_000), Some(fungible(A, 600_000)));
    assert_eq!(trader.weight(), 0);
    assert_eq!(trader.refund_weight(1), None);
}

#[test]
fn refund_converts_at_the_bucket_price() {
    let mut trader = two_asset_trader();
    assert_eq!(trader.buy_weight(1_000_000, vec![fungible(B, 600_000)]), Ok(vec![fungible(B, 100_000)]));
    assert_eq!(trader.refund_weight(200_000), Some(fungible(B, 100_000)));
    assert_eq!(trader.paid_assets()[0].amount, 400_000);
}

#[test]
fn flush_twice_forwards_once() {
    let mut trader = two_asset_trader();
    assert_eq!(trader.buy_weight(1_000, vec![fungible(B, 500)]), Ok(vec![]));
    assert_eq!(trader.buy_weight(1_000, vec![fungible(A, 1_000)]), Ok(vec![]));
    assert_eq!(trader.flush(), vec![fungible(A, 1_000), fungible(B, 500)]);
    assert!(trader.paid_assets().is_empty());
    assert_eq!(trader.flush(), vec![]);
}

#[test]
fn same_asset_at_two_prices_makes_two_buckets() {
    let mut ledger = FeeLedger::new();
    let low = ExchangePrice::from_inner(HALF);
    let high = ExchangePrice::from_inner(PRICE_ACCURACY);
    ledger.credit(A, high, 10);
    ledger.credit(A, low, 5);
    ledger.credit(A, high, 1);
    assert_eq!(
        ledger.buckets(),
        vec![
            Bucket { location: A, price: low, amount: 5 },
            Bucket { location: A, price: high, amount: 11 },
        ]
    );
    assert_eq!(ledger.amount_of(A, high), 11);
    assert_eq!(ledger.amount_of(B, high), 0);
    assert_eq!(ledger.len(), 2);
}

#[test]
fn ledger_credit_saturates_and_refund_removes() {
    let mut ledger = FeeLedger::new();
    let p = ExchangePrice::from_inner(PRICE_ACCURACY);
    ledger.credit(B, p, u128::MAX);
    ledger.credit(B, p, 7);
    assert_eq!(ledger.amount_of(B, p), u128::MAX);
    ledger.credit(A, p, 0);
    assert_eq!(ledger.len(), 1);
    assert_eq!(ledger.take_from_first(3), 3);
    assert_eq!(ledger.take_from_first(u128::MAX), u128::MAX - 3);
    assert!(ledger.is_empty());
    assert_eq!(ledger.first(), None);
}

#[test]
fn price_multiplication_rounds_down() {
    let half = ExchangePrice::from_inner(HALF);
    assert_eq!(half.checked_mul_int(1_000_001), Some(500_000));
    assert_eq!(half.saturating_mul_int(3), 1);
    let big = ExchangePrice::from_integer(2_147_483_647).unwrap();
    assert_eq!(big.checked_mul_int(u128::MAX), None);
    assert_eq!(big.saturating_mul_int(u128::MAX), u128::MAX);
    assert_eq!(big.checked_mul_int(2), Some(4_294_967_294));
}

#[test]
fn price_from_integer() {
    assert_eq!(ExchangePrice::from_integer(3), Some(ExchangePrice::from_inner(3 * PRICE_ACCURACY)));
    assert_eq!(ExchangePrice::from_integer(u128::MAX), None);
}

#[test]
fn fee_formulas() {
    assert_eq!(IdentityFee.weight_to_fee(77), 77);
    assert_eq!(ConstantMultiplier { multiplier: 5 }.weight_to_fee(3), 15);
    assert_eq!(ConstantMultiplier { multiplier: u128::MAX }.weight_to_fee(2), u128::MAX);
}

#[test]
fn price_table_and_locations() {
    let table = PriceTable {
        entries: vec![(A, ExchangePrice::from_inner(1)), (A, ExchangePrice::from_inner(2))],
    };
    assert_eq!(table.price(A), Some(ExchangePrice::from_inner(1)));
    assert_eq!(table.price(B), None);
    let known = KnownLocations { locations: vec![A] };
    assert_eq!(known.convert(A), Some(A));
    assert_eq!(known.convert(B), None);
}

#[test]
fn revenue_rejects_what_it_cannot_deposit() {
    let receiver = ToFeeReceiver::new(KnownLocations { locations: vec![A] });
    let nft = OfferedAsset { id: AssetRef::Concrete(A), fun: Fungibility::NonFungible(1) };
    assert_eq!(receiver.take_revenue(nft, 42), None);
    let abstract_asset = OfferedAsset { id: AssetRef::Abstract(A), fun: Fungibility::Fungible(1) };
    assert_eq!(receiver.take_revenue(abstract_asset, 42), None);
    assert_eq!(receiver.take_revenue(fungible(B, 1), 42), None);
}

#[test]
fn abstract_asset_is_passed_over() {
    let mut trader = two_asset_trader();
    let abstract_asset = OfferedAsset { id: AssetRef::Abstract(A), fun: Fungibility::Fungible(1_000) };
    assert_eq!(trader.buy_weight(1_000, vec![abstract_asset, fungible(A, 1_000)]), Ok(vec![abstract_asset]));
    assert_eq!(
        trader.paid_assets(),
        vec![Bucket { location: A, price: ExchangePrice::from_inner(PRICE_ACCURACY), amount: 1_000 }]
    );
}

#[test]
fn abstract_then_concrete_exact_pays() {
    let mut trader = two_asset_trader();
    let abstract_asset = OfferedAsset { id: AssetRef::Abstract(B), fun: Fungibility::Fungible(0) };
    let mut payment = vec![abstract_asset, fungible(A, 1_000)];
    let res = trader.buy_weight(1_000, payment.clone());
    payment.remove(1);
    assert_eq!(res, Ok(payment));
    let mut trader = two_asset_trader();
    let nft = OfferedAsset { id: AssetRef::Abstract(B), fun: Fungibility::NonFungible(3) };
    assert_eq!(trader.buy_weight(1_000, vec![nft, fungible(B, 500)]), Ok(vec![nft]));
}

#[test]
fn abstract_then_concrete_short_is_too_expensive() {
    let mut trader = two_asset_trader();
    let abstract_asset = OfferedAsset { id: AssetRef::Abstract(A), fun: Fungibility::Fungible(5_000) };
    assert_eq!(
        trader.buy_weight(1_000, vec![abstract_asset, fungible(A, 999)]),
        Err(TraderError::TooExpensive)
    );
    assert!(trader.paid_assets().is_empty());
    assert_eq!(trader.weight(), 0);
}

#[test]
fn abstract_then_concrete_overflow() {
    let prices = PriceTable { entries: vec![(A, ExchangePrice::from_integer(2).unwrap())] };
    let mut trader = MultiCurrencyTrader::new(
        ConstantMultiplier { multiplier: u128::MAX },
        prices,
        KnownLocations { locations: vec![A] },
    );
    let abstract_asset = OfferedAsset { id: AssetRef::Abstract(A), fun: Fungibility::Fungible(1) };
    assert_eq!(trader.buy_weight(1, vec![abstract_asset, fungible(A, 1)]), Err(TraderError::Overflow));
}

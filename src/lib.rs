//! Multi-asset weight trading: a per-session ledger of fees paid for weight in
//! several fungible assets, with refunds and a final hand-over of the revenue.

pub mod ledger;
pub mod price;
pub mod revenue;
pub mod strategy;
pub mod trader;

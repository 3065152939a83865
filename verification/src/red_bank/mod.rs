//! The red bank money market: reserves, interest indices and rates, user positions,
//! and the decisions behind deposits, redemptions, borrows, repayments and liquidations.

pub mod bits;
pub mod state;
pub mod interest;
pub mod position;
pub mod handlers;
pub mod borrow;
pub mod repay;
pub mod liquidate;
pub mod transfer;
pub mod receive;

//! State-transition logic of a constant-product two-asset liquidity pool and
//! of a pooled lending contract, in exact checked 128-bit integer arithmetic.

pub mod identity;
pub mod contract;
pub mod errors;
pub mod laws;
pub mod lending;
pub mod math;
pub mod model;

pub use errors::LPError;
pub use contract::{get_deposit_amounts, DepositReceipt, LiquidityPool};
pub use identity::Identity;
pub use lending::{BorrowerAccount, LenderAccount, LendingState, LiquidityPoolContract};
pub use model::PoolState;

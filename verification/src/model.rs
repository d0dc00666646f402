use crate::errors::LPError;
use crate::identity::precedes;
use crate::math::{fits_i128, floor_sqrt, mul_div};
use vstd::prelude::*;

verus! {

/// The part of a net inflow that counts toward the invariant, in thousandths:
/// 3 of every 1000 units sold to the pool are its fee.
pub const FEE_NUMERATOR: i128 = 997;

/// The scale of `FEE_NUMERATOR`.
pub const FEE_DENOMINATOR: i128 = 1000;

/// The number of decimal places of the share asset of a pool.
pub const SHARE_DECIMALS: u32 = 7;

/// The name that the share asset of a pool is provisioned with.
pub const SHARE_NAME: &'static str = "Pool Share Token";

/// The symbol that the share asset of a pool is provisioned with.
pub const SHARE_SYMBOL: &'static str = "POOL";

/// The amounts that a deposit pulls from the depositor.
///
/// Into a pool whose reserves are both zero the desired amounts go in as they
/// are: the first deposit fixes the price. Otherwise the deposit keeps the
/// ratio of the reserves. The amount of B that matches `desired_a` is tried
/// first; where it is more than `desired_b`, the amount of A that matches
/// `desired_b` is taken instead. Either computed amount has to stay within
/// the depositor's bounds, and each quotient is rounded toward zero.
pub open spec fn deposit_amounts(
    desired_a: int,
    min_a: int,
    desired_b: int,
    min_b: int,
    reserve_a: int,
    reserve_b: int,
) -> Result<(int, int), LPError> {
    if reserve_a == 0 && reserve_b == 0 {
        Ok((desired_a, desired_b))
    } else {
        match mul_div(desired_a, reserve_b, reserve_a) {
            None => Err(LPError::ArithmeticError),
            Some(amount_b) => if amount_b <= desired_b {
                if amount_b < min_b {
                    Err(LPError::SlippageExceeded)
                } else {
                    Ok((desired_a, amount_b))
                }
            } else {
                match mul_div(desired_b, reserve_a, reserve_b) {
                    None => Err(LPError::ArithmeticError),
                    Some(amount_a) => if amount_a > desired_a || amount_a < min_a {
                        Err(LPError::SlippageExceeded)
                    } else {
                        Ok((amount_a, desired_b))
                    },
                }
            },
        }
    }
}

/// The total of shares outstanding once a deposit has brought the balances
/// of the pool to `balance_a` and `balance_b`.
///
/// Where both reserves were positive, each balance is worth shares in the
/// proportion of the total to the reserve, rounded toward zero, and the
/// smaller of the two worths is the new total, so that an unbalanced deposit
/// does not dilute the holders. Otherwise the deposit is the first one, and
/// the total is the geometric mean of the balances, rounded down.
pub open spec fn shares_after_deposit(
    reserve_a: int,
    reserve_b: int,
    total_shares: int,
    balance_a: int,
    balance_b: int,
) -> Option<int> {
    if reserve_a > 0 && reserve_b > 0 {
        match (
            mul_div(balance_a, total_shares, reserve_a),
            mul_div(balance_b, total_shares, reserve_b),
        ) {
            (Some(shares_a), Some(shares_b)) => Some(
                if shares_a <= shares_b {
                    shares_a
                } else {
                    shares_b
                },
            ),
            _ => None,
        }
    } else if fits_i128(balance_a * balance_b) && balance_a * balance_b >= 0 {
        Some(floor_sqrt(balance_a * balance_b))
    } else {
        None
    }
}

/// What has to be sold to the pool to buy `out` from it: the fee-inclusive
/// constant-product amount `reserve_sell * out * 1000 / ((reserve_buy - out)
/// * 997)`, rounded down, and one unit more in the pool's favour.
pub open spec fn sell_amount(reserve_sell: int, reserve_buy: int, out: int) -> int
    recommends
        out < reserve_buy,
{
    (reserve_sell * out * FEE_DENOMINATOR) / ((reserve_buy - out) * FEE_NUMERATOR) + 1
}

/// `sell_amount` where it can be computed: the pool must hold more than
/// `out` of the asset bought, and the numerator and the denominator must each
/// be held in 128 bits.
pub open spec fn required_input(reserve_sell: int, reserve_buy: int, out: int) -> Result<
    int,
    LPError,
> {
    if out >= reserve_buy {
        Err(LPError::InsufficientReserve)
    } else if !fits_i128(reserve_sell * out * FEE_DENOMINATOR) || !fits_i128(
        (reserve_buy - out) * FEE_NUMERATOR,
    ) {
        Err(LPError::ArithmeticError)
    } else {
        Ok(sell_amount(reserve_sell, reserve_buy, out))
    }
}

/// The fee-adjusted factor of one asset in the invariant check, scaled by
/// 1000: the reserve, and the change of the balance beyond what is paid out,
/// of which a net inflow counts 997 thousandths and a net outflow in full.
/// `None` where a step of the computation cannot be held in 128 bits.
///
/// A swap is accepted only if the product of the two factors is at least
/// the product of the two reserves, each scaled by 1000.
pub open spec fn invariant_factor(balance: int, reserve: int, paid_out: int) -> Option<int> {
    let delta = balance - reserve - paid_out;
    let adjusted = if delta > 0 {
        FEE_NUMERATOR * delta
    } else {
        FEE_DENOMINATOR * delta
    };
    let scaled = FEE_DENOMINATOR * reserve;
    if fits_i128(balance - reserve) && fits_i128(delta) && fits_i128(adjusted) && fits_i128(scaled)
        && fits_i128(scaled + adjusted) {
        Some(scaled + adjusted)
    } else {
        None
    }
}

/// The product of the two reserves, each scaled by 1000: what the product of
/// the fee-adjusted factors is held against.
pub open spec fn scaled_product(reserve_a: int, reserve_b: int) -> int {
    (FEE_DENOMINATOR * reserve_a) * (FEE_DENOMINATOR * reserve_b)
}

/// The state of one pool as a mathematical value.
#[verifier::ext_equal]
pub struct PoolState {
    /// Whether `initialize` has succeeded on the pool.
    pub initialized: bool,
    /// The identity of the first traded asset.
    pub asset_a: Seq<u8>,
    /// The identity of the second traded asset.
    pub asset_b: Seq<u8>,
    /// The identity of the asset that stands for ownership of the pool.
    pub share_asset: Seq<u8>,
    /// What the pool believes it holds of asset A.
    pub reserve_a: int,
    /// What the pool believes it holds of asset B.
    pub reserve_b: int,
    /// The number of shares outstanding.
    pub total_shares: int,
}

impl PoolState {
    /// A pool before `initialize`.
    pub open spec fn uninitialized() -> PoolState {
        PoolState {
            initialized: false,
            asset_a: Seq::empty(),
            asset_b: Seq::empty(),
            share_asset: Seq::empty(),
            reserve_a: 0,
            reserve_b: 0,
            total_shares: 0,
        }
    }

    /// What every pool satisfies: before `initialize` it holds nothing, and
    /// from then on its two assets are in canonical order.
    pub open spec fn well_formed(self) -> bool {
        if self.initialized {
            precedes(self.asset_a, self.asset_b)
        } else {
            self == PoolState::uninitialized()
        }
    }

    /// Whether this is the same pool as `other`, in whatever state: both are
    /// initialized or neither is, and they hold the same three identities.
    pub open spec fn same_pool_as(self, other: PoolState) -> bool {
        &&& self.initialized == other.initialized
        &&& self.asset_a == other.asset_a
        &&& self.asset_b == other.asset_b
        &&& self.share_asset == other.share_asset
    }

    /// Whether the pool can serve its shares: no amount is negative, and
    /// while shares are outstanding both reserves are strictly positive.
    pub open spec fn solvent(self) -> bool {
        &&& self.reserve_a >= 0
        &&& self.reserve_b >= 0
        &&& self.total_shares >= 0
        &&& (self.total_shares > 0 ==> self.reserve_a > 0 && self.reserve_b > 0)
    }

    /// Why the pool cannot be initialized for the two assets, if it cannot:
    /// they are not in canonical order, or the pool holds state already.
    pub open spec fn initialize_refusal(self, asset_a: Seq<u8>, asset_b: Seq<u8>) -> Option<
        LPError,
    > {
        if !precedes(asset_a, asset_b) {
            Some(LPError::InvalidOrdering)
        } else if self.initialized {
            Some(LPError::AlreadyInitialized)
        } else {
            None
        }
    }

    /// The outcome of `initialize`: the pool holds the three identities and
    /// nothing else.
    pub open spec fn initialize(
        self,
        asset_a: Seq<u8>,
        asset_b: Seq<u8>,
        share_asset: Seq<u8>,
    ) -> Result<PoolState, LPError> {
        match self.initialize_refusal(asset_a, asset_b) {
            Some(e) => Err(e),
            None => Ok(
                PoolState {
                    initialized: true,
                    asset_a,
                    asset_b,
                    share_asset,
                    reserve_a: 0,
                    reserve_b: 0,
                    total_shares: 0,
                },
            ),
        }
    }

    /// The amounts of A and B that a deposit has to pull from the depositor
    /// before it can be settled.
    pub open spec fn plan_deposit(
        self,
        authorized: bool,
        desired_a: int,
        min_a: int,
        desired_b: int,
        min_b: int,
    ) -> Result<(int, int), LPError> {
        if !authorized {
            Err(LPError::NotAuthorized)
        } else if !self.initialized {
            Err(LPError::NotInitialized)
        } else {
            match deposit_amounts(
                desired_a,
                min_a,
                desired_b,
                min_b,
                self.reserve_a,
                self.reserve_b,
            ) {
                Err(e) => Err(e),
                Ok((amount_a, amount_b)) => if amount_a <= 0 || amount_b <= 0 {
                    Err(LPError::ZeroAmount)
                } else {
                    Ok((amount_a, amount_b))
                },
            }
        }
    }

    /// The outcome of a deposit: the pool afterwards, and the amounts of A
    /// and B pulled and the number of shares to mint for the depositor.
    /// `balance_a` and `balance_b` are what the ledger reports for the pool
    /// once the amounts have been pulled.
    pub open spec fn deposit(
        self,
        authorized: bool,
        desired_a: int,
        min_a: int,
        desired_b: int,
        min_b: int,
        balance_a: int,
        balance_b: int,
    ) -> Result<(PoolState, (int, int, int)), LPError> {
        match self.plan_deposit(authorized, desired_a, min_a, desired_b, min_b) {
            Err(e) => Err(e),
            Ok((amount_a, amount_b)) => match shares_after_deposit(
                self.reserve_a,
                self.reserve_b,
                self.total_shares,
                balance_a,
                balance_b,
            ) {
                None => Err(LPError::ArithmeticError),
                Some(new_total) => if !fits_i128(new_total - self.total_shares) {
                    Err(LPError::ArithmeticError)
                } else {
                    Ok(
                        (
                            PoolState {
                                reserve_a: balance_a,
                                reserve_b: balance_b,
                                total_shares: new_total,
                                ..self
                            },
                            (amount_a, amount_b, new_total - self.total_shares),
                        ),
                    )
                },
            },
        }
    }

    /// The reserve of the asset that a swap sells to the pool.
    pub open spec fn reserve_sell(self, buy_a: bool) -> int {
        if buy_a {
            self.reserve_b
        } else {
            self.reserve_a
        }
    }

    /// The reserve of the asset that a swap buys from the pool.
    pub open spec fn reserve_buy(self, buy_a: bool) -> int {
        if buy_a {
            self.reserve_a
        } else {
            self.reserve_b
        }
    }

    /// The amount that a swap has to pull from the trader before it can be
    /// settled.
    pub open spec fn quote_swap(
        self,
        authorized: bool,
        buy_a: bool,
        out: int,
        in_max: int,
    ) -> Result<int, LPError> {
        if !authorized {
            Err(LPError::NotAuthorized)
        } else if !self.initialized {
            Err(LPError::NotInitialized)
        } else {
            match required_input(self.reserve_sell(buy_a), self.reserve_buy(buy_a), out) {
                Err(e) => Err(e),
                Ok(sold) => if sold > in_max {
                    Err(LPError::SlippageExceeded)
                } else {
                    Ok(sold)
                },
            }
        }
    }

    /// The outcome of a swap: the pool afterwards and the amount sold to it.
    /// `balance_a` and `balance_b` are what the ledger reports for the pool
    /// once the amount sold has been pulled and before `out` is paid.
    pub open spec fn swap(
        self,
        authorized: bool,
        buy_a: bool,
        out: int,
        in_max: int,
        balance_a: int,
        balance_b: int,
    ) -> Result<(PoolState, int), LPError> {
        let out_a = if buy_a {
            out
        } else {
            0
        };
        let out_b = if buy_a {
            0
        } else {
            out
        };
        match self.quote_swap(authorized, buy_a, out, in_max) {
            Err(e) => Err(e),
            Ok(sold) => match (
                invariant_factor(balance_a, self.reserve_a, out_a),
                invariant_factor(balance_b, self.reserve_b, out_b),
            ) {
                (Some(factor_a), Some(factor_b)) => if !fits_i128(factor_a * factor_b)
                    || !fits_i128(scaled_product(self.reserve_a, self.reserve_b)) {
                    Err(LPError::ArithmeticError)
                } else if factor_a * factor_b < scaled_product(self.reserve_a, self.reserve_b) {
                    Err(LPError::InvariantViolated)
                } else if !fits_i128(balance_a - out_a) || !fits_i128(balance_b - out_b) {
                    Err(LPError::ArithmeticError)
                } else if balance_a - out_a <= 0 || balance_b - out_b <= 0 {
                    Err(LPError::ReserveDepleted)
                } else {
                    Ok(
                        (
                            PoolState {
                                reserve_a: balance_a - out_a,
                                reserve_b: balance_b - out_b,
                                ..self
                            },
                            sold,
                        ),
                    )
                },
                _ => Err(LPError::ArithmeticError),
            },
        }
    }

    /// The number of shares that a withdrawal has to pull from the caller
    /// before it can be settled: the number the caller asks to redeem.
    pub open spec fn plan_withdraw(self, authorized: bool, share_amount: int) -> Result<
        int,
        LPError,
    > {
        if !authorized {
            Err(LPError::NotAuthorized)
        } else if !self.initialized {
            Err(LPError::NotInitialized)
        } else {
            Ok(share_amount)
        }
    }

    /// The outcome of a withdrawal: the pool afterwards and the amounts of A
    /// and B released. `balance_a`, `balance_b` and `balance_shares` are what
    /// the ledger reports for the pool once the shares to redeem have been
    /// handed to it. All of `balance_shares` is redeemed and burnt, and each
    /// released amount is rounded toward zero.
    pub open spec fn withdraw(
        self,
        authorized: bool,
        min_a: int,
        min_b: int,
        balance_a: int,
        balance_b: int,
        balance_shares: int,
    ) -> Result<(PoolState, (int, int)), LPError> {
        if !authorized {
            Err(LPError::NotAuthorized)
        } else if !self.initialized {
            Err(LPError::NotInitialized)
        } else {
            match (
                mul_div(balance_a, balance_shares, self.total_shares),
                mul_div(balance_b, balance_shares, self.total_shares),
            ) {
                (Some(out_a), Some(out_b)) => if out_a < min_a || out_b < min_b {
                    Err(LPError::SlippageExceeded)
                } else if !fits_i128(self.total_shares - balance_shares) || !fits_i128(
                    balance_a - out_a,
                ) || !fits_i128(balance_b - out_b) {
                    Err(LPError::ArithmeticError)
                } else {
                    Ok(
                        (
                            PoolState {
                                reserve_a: balance_a - out_a,
                                reserve_b: balance_b - out_b,
                                total_shares: self.total_shares - balance_shares,
                                ..self
                            },
                            (out_a, out_b),
                        ),
                    )
                },
                _ => Err(LPError::ArithmeticError),
            }
        }
    }
}

/// One request that can change a pool, with what the ledger reported while
/// it was served.
pub enum Operation {
    /// A deposit, settled on the balances reported after the pull.
    Deposit {
        authorized: bool,
        desired_a: int,
        min_a: int,
        desired_b: int,
        min_b: int,
        balance_a: int,
        balance_b: int,
    },
    /// A swap, settled on the balances reported after the pull.
    Swap { authorized: bool, buy_a: bool, out: int, in_max: int, balance_a: int, balance_b: int },
    /// A withdrawal, settled on the balances reported after the shares came in.
    Withdraw {
        authorized: bool,
        min_a: int,
        min_b: int,
        balance_a: int,
        balance_b: int,
        balance_shares: int,
    },
}

impl PoolState {
    /// The pool once `op` has been served: changed as the operation says
    /// where it succeeds, and as before where it is refused.
    pub open spec fn after(self, op: Operation) -> PoolState {
        match op {
            Operation::Deposit {
                authorized,
                desired_a,
                min_a,
                desired_b,
                min_b,
                balance_a,
                balance_b,
            } => match self.deposit(
                authorized,
                desired_a,
                min_a,
                desired_b,
                min_b,
                balance_a,
                balance_b,
            ) {
                Ok((post, _)) => post,
                Err(_) => self,
            },
            Operation::Swap { authorized, buy_a, out, in_max, balance_a, balance_b } => match self.swap(
                authorized,
                buy_a,
                out,
                in_max,
                balance_a,
                balance_b,
            ) {
                Ok((post, _)) => post,
                Err(_) => self,
            },
            Operation::Withdraw {
                authorized,
                min_a,
                min_b,
                balance_a,
                balance_b,
                balance_shares,
            } => match self.withdraw(
                authorized,
                min_a,
                min_b,
                balance_a,
                balance_b,
                balance_shares,
            ) {
                Ok((post, _)) => post,
                Err(_) => self,
            },
        }
    }

    /// What a sound ledger guarantees of the balances it reports while `op`
    /// is served: no balance is negative; when shares come in to be redeemed
    /// the pool still holds at least its reserves, since nobody but the pool
    /// moves funds out of it, and it holds no more shares than exist.
    pub open spec fn ledger_sound_for(self, op: Operation) -> bool {
        match op {
            Operation::Deposit { balance_a, balance_b, .. } => balance_a >= 0 && balance_b >= 0,
            Operation::Swap { .. } => true,
            Operation::Withdraw { balance_a, balance_b, balance_shares, .. } => {
                &&& balance_a >= self.reserve_a
                &&& balance_b >= self.reserve_b
                &&& balance_shares <= self.total_shares
            },
        }
    }

    /// The pool once the operations of `ops` have been served in turn.
    pub open spec fn after_all(self, ops: Seq<Operation>) -> PoolState
        decreases ops.len(),
    {
        if ops.len() == 0 {
            self
        } else {
            self.after(ops[0]).after_all(ops.drop_first())
        }
    }

    /// Whether the ledger was sound for each operation of `ops`, served in
    /// turn from this state.
    pub open spec fn ledger_sound_for_all(self, ops: Seq<Operation>) -> bool
        decreases ops.len(),
    {
        if ops.len() == 0 {
            true
        } else {
            self.ledger_sound_for(ops[0]) && self.after(ops[0]).ledger_sound_for_all(
                ops.drop_first(),
            )
        }
    }
}

} // verus!

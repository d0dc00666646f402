use crate::errors::LPError;
use crate::identity::{precedes, Identity};
use crate::math::{checked_mul_div, checked_sqrt, fits_i128};
use crate::model::{
    deposit_amounts, invariant_factor, required_input, shares_after_deposit, PoolState,
    FEE_DENOMINATOR, FEE_NUMERATOR,
};
use vstd::prelude::*;

verus! {

/// Computes the amounts of A and B that a deposit pulls, given what the
/// depositor desires and tolerates and what the pool holds.
pub fn get_deposit_amounts(
    desired_a: i128,
    min_a: i128,
    desired_b: i128,
    min_b: i128,
    reserve_a: i128,
    reserve_b: i128,
) -> (r: Result<(i128, i128), LPError>)
    ensures
        match r {
            Ok((amount_a, amount_b)) => deposit_amounts(
                desired_a as int,
                min_a as int,
                desired_b as int,
                min_b as int,
                reserve_a as int,
                reserve_b as int,
            ) == Ok::<(int, int), LPError>((amount_a as int, amount_b as int)),
            Err(e) => deposit_amounts(
                desired_a as int,
                min_a as int,
                desired_b as int,
                min_b as int,
                reserve_a as int,
                reserve_b as int,
            ) == Err::<(int, int), LPError>(e),
        },
{
    if reserve_a == 0 && reserve_b == 0 {
        return Ok((desired_a, desired_b));
    }
    let amount_b = match checked_mul_div(desired_a, reserve_b, reserve_a) {
        Some(q) => q,
        None => {
            return Err(LPError::ArithmeticError);
        },
    };
    if amount_b <= desired_b {
        if amount_b < min_b {
            return Err(LPError::SlippageExceeded);
        }
        Ok((desired_a, amount_b))
    } else {
        let amount_a = match checked_mul_div(desired_b, reserve_a, reserve_b) {
            Some(q) => q,
            None => {
                return Err(LPError::ArithmeticError);
            },
        };
        if amount_a > desired_a || amount_a < min_a {
            return Err(LPError::SlippageExceeded);
        }
        Ok((amount_a, desired_b))
    }
}

/// Computes the total of shares outstanding after a deposit that has brought
/// the balances of the pool to `balance_a` and `balance_b`.
pub fn get_shares_after_deposit(
    reserve_a: i128,
    reserve_b: i128,
    total_shares: i128,
    balance_a: i128,
    balance_b: i128,
) -> (r: Option<i128>)
    ensures
        match r {
            Some(total) => shares_after_deposit(
                reserve_a as int,
                reserve_b as int,
                total_shares as int,
                balance_a as int,
                balance_b as int,
            ) == Some(total as int),
            None => shares_after_deposit(
                reserve_a as int,
                reserve_b as int,
                total_shares as int,
                balance_a as int,
                balance_b as int,
            ) is None,
        },
{
    if reserve_a > 0 && reserve_b > 0 {
        let shares_a = match checked_mul_div(balance_a, total_shares, reserve_a) {
            Some(q) => q,
            None => {
                return None;
            },
        };
        let shares_b = match checked_mul_div(balance_b, total_shares, reserve_b) {
            Some(q) => q,
            None => {
                return None;
            },
        };
        if shares_a <= shares_b {
            Some(shares_a)
        } else {
            Some(shares_b)
        }
    } else {
        match balance_a.checked_mul(balance_b) {
            None => None,
            Some(product) => checked_sqrt(product),
        }
    }
}

/// Computes what has to be sold to a pool to buy `out` from it.
pub fn get_required_input(reserve_sell: i128, reserve_buy: i128, out: i128) -> (r: Result<
    i128,
    LPError,
>)
    ensures
        match r {
            Ok(sold) => required_input(reserve_sell as int, reserve_buy as int, out as int) == Ok::<
                int,
                LPError,
            >(sold as int),
            Err(e) => required_input(reserve_sell as int, reserve_buy as int, out as int) == Err::<
                int,
                LPError,
            >(e),
        },
{
    if out >= reserve_buy {
        return Err(LPError::InsufficientReserve);
    }
    let product = match reserve_sell.checked_mul(out) {
        Some(p) => p,
        None => {
            return Err(LPError::ArithmeticError);
        },
    };
    let n = match product.checked_mul(FEE_DENOMINATOR) {
        Some(n) => n,
        None => {
            return Err(LPError::ArithmeticError);
        },
    };
    let room = match reserve_buy.checked_sub(out) {
        Some(d) => d,
        None => {
            return Err(LPError::ArithmeticError);
        },
    };
    let d = match room.checked_mul(FEE_NUMERATOR) {
        Some(d) => d,
        None => {
            return Err(LPError::ArithmeticError);
        },
    };
    proof {
        lemma_floor_quotient_bounds(n as int, d as int);
    }
    match n.checked_div_euclid(d) {
        Some(quotient) => Ok(quotient + 1),
        None => Err(LPError::ArithmeticError),
    }
}

/// Computes the fee-adjusted factor of one asset in the invariant check.
pub fn get_invariant_factor(balance: i128, reserve: i128, paid_out: i128) -> (r: Option<i128>)
    ensures
        match r {
            Some(factor) => invariant_factor(balance as int, reserve as int, paid_out as int)
                == Some(factor as int),
            None => invariant_factor(balance as int, reserve as int, paid_out as int) is None,
        },
{
    let grown = match balance.checked_sub(reserve) {
        Some(g) => g,
        None => {
            return None;
        },
    };
    let delta = match grown.checked_sub(paid_out) {
        Some(d) => d,
        None => {
            return None;
        },
    };
    let adjusted = if delta > 0 {
        FEE_NUMERATOR.checked_mul(delta)
    } else {
        FEE_DENOMINATOR.checked_mul(delta)
    };
    let adjusted = match adjusted {
        Some(a) => a,
        None => {
            return None;
        },
    };
    let scaled = match FEE_DENOMINATOR.checked_mul(reserve) {
        Some(s) => s,
        None => {
            return None;
        },
    };
    scaled.checked_add(adjusted)
}

/// Dividing by at least 997 brings every 128-bit numerator to a quotient
/// with room for one more.
proof fn lemma_floor_quotient_bounds(n: int, d: int)
    requires
        fits_i128(n),
        d >= 997,
    ensures
        i128::MIN <= n / d < i128::MAX,
{
    assert(i128::MIN <= n / d < i128::MAX) by (nonlinear_arith)
        requires
            i128::MIN <= n <= i128::MAX,
            d >= 997,
    ;
}

/// What a settled deposit did: the amounts of A and B that were pulled from
/// the depositor, and the number of shares to mint for it.
#[derive(Clone, Copy, Debug, PartialEq, Eq, Structural)]
pub struct DepositReceipt {
    pub amount_a: i128,
    pub amount_b: i128,
    pub shares_minted: i128,
}

/// A constant-product pool of two assets: the reserve store of one pool
/// instance and the rules by which deposits, swaps and withdrawals change it.
///
/// The pool moves no funds itself. An operation that needs funds moved comes
/// in two steps. The first (`plan_deposit`, `quote_swap`, `plan_withdraw`)
/// says what the ledger has to pull from the caller. The second (`deposit`,
/// `swap`, `withdraw`) takes the balances that the ledger reports for the
/// pool afterwards, which are the ground truth, checks everything again and
/// commits the new state, or refuses and leaves the pool as it was.
#[derive(Debug, PartialEq, Eq)]
pub struct LiquidityPool {
    initialized: bool,
    asset_a: Identity,
    asset_b: Identity,
    share_asset: Identity,
    reserve_a: i128,
    reserve_b: i128,
    total_shares: i128,
}

impl View for LiquidityPool {
    type V = PoolState;

    closed spec fn view(&self) -> PoolState {
        PoolState {
            initialized: self.initialized,
            asset_a: self.asset_a@,
            asset_b: self.asset_b@,
            share_asset: self.share_asset@,
            reserve_a: self.reserve_a as int,
            reserve_b: self.reserve_b as int,
            total_shares: self.total_shares as int,
        }
    }
}

impl LiquidityPool {
    #[verifier::type_invariant]
    closed spec fn valid(&self) -> bool {
        self@.well_formed()
    }

    /// A pool that has not been initialized.
    pub fn new() -> (pool: LiquidityPool)
        ensures
            pool@ == PoolState::uninitialized(),
    {
        LiquidityPool {
            initialized: false,
            asset_a: Identity::new(Vec::new()),
            asset_b: Identity::new(Vec::new()),
            share_asset: Identity::new(Vec::new()),
            reserve_a: 0,
            reserve_b: 0,
            total_shares: 0,
        }
    }

    /// An initialized pool with the given contents, as read back from where
    /// its state is kept. Refused with `InvalidOrdering` unless `asset_a`
    /// precedes `asset_b`.
    pub fn restore(
        asset_a: Identity,
        asset_b: Identity,
        share_asset: Identity,
        reserve_a: i128,
        reserve_b: i128,
        total_shares: i128,
    ) -> (r: Result<LiquidityPool, LPError>)
        ensures
            match r {
                Ok(pool) => precedes(asset_a@, asset_b@) && pool@ == (PoolState {
                    initialized: true,
                    asset_a: asset_a@,
                    asset_b: asset_b@,
                    share_asset: share_asset@,
                    reserve_a: reserve_a as int,
                    reserve_b: reserve_b as int,
                    total_shares: total_shares as int,
                }),
                Err(e) => !precedes(asset_a@, asset_b@) && e == LPError::InvalidOrdering,
            },
    {
        if !asset_a.precedes(&asset_b) {
            return Err(LPError::InvalidOrdering);
        }
        Ok(
            LiquidityPool {
                initialized: true,
                asset_a,
                asset_b,
                share_asset,
                reserve_a,
                reserve_b,
                total_shares,
            },
        )
    }

    /// Whether the pool can be initialized for the two assets: they must be
    /// in canonical order and the pool must hold no state yet. To be asked
    /// before the share asset is provisioned.
    pub fn can_initialize(&self, asset_a: &Identity, asset_b: &Identity) -> (r: Result<
        (),
        LPError,
    >)
        ensures
            match r {
                Ok(()) => self@.initialize_refusal(asset_a@, asset_b@) is None,
                Err(e) => self@.initialize_refusal(asset_a@, asset_b@) == Some(e),
            },
    {
        if !asset_a.precedes(asset_b) {
            Err(LPError::InvalidOrdering)
        } else if self.initialized {
            Err(LPError::AlreadyInitialized)
        } else {
            Ok(())
        }
    }

    /// Initializes the pool for the two assets and the share asset that was
    /// provisioned for it, with zero reserves and no shares.
    pub fn initialize(&mut self, asset_a: Identity, asset_b: Identity, share_asset: Identity) -> (r:
        Result<(), LPError>)
        ensures
            match r {
                Ok(()) => old(self)@.initialize(asset_a@, asset_b@, share_asset@) == Ok::<
                    PoolState,
                    LPError,
                >(final(self)@),
                Err(e) => old(self)@.initialize(asset_a@, asset_b@, share_asset@) == Err::<
                    PoolState,
                    LPError,
                >(e) && final(self)@ == old(self)@,
            },
    {
        if !asset_a.precedes(&asset_b) {
            return Err(LPError::InvalidOrdering);
        }
        if self.initialized {
            return Err(LPError::AlreadyInitialized);
        }
        *self = LiquidityPool {
            initialized: true,
            asset_a,
            asset_b,
            share_asset,
            reserve_a: 0,
            reserve_b: 0,
            total_shares: 0,
        };
        Ok(())
    }

    /// Whether `initialize` has succeeded on the pool.
    pub fn is_initialized(&self) -> (r: bool)
        ensures
            r == self@.initialized,
    {
        self.initialized
    }

    /// The identity of the first traded asset. In an initialized pool it
    /// precedes that of the second.
    pub fn asset_a(&self) -> (id: &Identity)
        ensures
            id@ == self@.asset_a,
            self@.initialized ==> precedes(self@.asset_a, self@.asset_b),
    {
        proof {
            use_type_invariant(self);
        }
        &self.asset_a
    }

    /// The identity of the second traded asset.
    pub fn asset_b(&self) -> (id: &Identity)
        ensures
            id@ == self@.asset_b,
    {
        &self.asset_b
    }

    /// The identity of the asset that stands for ownership of the pool.
    pub fn share_id(&self) -> (id: &Identity)
        ensures
            id@ == self@.share_asset,
    {
        &self.share_asset
    }

    /// The reserves of A and of B. Reading them changes nothing.
    pub fn get_rsrvs(&self) -> (r: (i128, i128))
        ensures
            r.0 == self@.reserve_a,
            r.1 == self@.reserve_b,
    {
        (self.reserve_a, self.reserve_b)
    }

    /// The number of shares outstanding. Reading it changes nothing.
    pub fn get_shares(&self) -> (r: i128)
        ensures
            r == self@.total_shares,
    {
        self.total_shares
    }

    /// The number of shares outstanding, whoever asks.
    pub fn balance(&self, _user: &Identity) -> (r: i128)
        ensures
            r == self@.total_shares,
    {
        self.total_shares
    }

    /// The amounts of A and B that the ledger has to pull from the depositor
    /// before `deposit` can settle.
    pub fn plan_deposit(
        &self,
        authorized: bool,
        desired_a: i128,
        min_a: i128,
        desired_b: i128,
        min_b: i128,
    ) -> (r: Result<(i128, i128), LPError>)
        ensures
            match r {
                Ok((amount_a, amount_b)) => self@.plan_deposit(
                    authorized,
                    desired_a as int,
                    min_a as int,
                    desired_b as int,
                    min_b as int,
                ) == Ok::<(int, int), LPError>((amount_a as int, amount_b as int)),
                Err(e) => self@.plan_deposit(
                    authorized,
                    desired_a as int,
                    min_a as int,
                    desired_b as int,
                    min_b as int,
                ) == Err::<(int, int), LPError>(e),
            },
    {
        if !authorized {
            return Err(LPError::NotAuthorized);
        }
        if !self.initialized {
            return Err(LPError::NotInitialized);
        }
        let (amount_a, amount_b) = match get_deposit_amounts(
            desired_a,
            min_a,
            desired_b,
            min_b,
            self.reserve_a,
            self.reserve_b,
        ) {
            Ok(amounts) => amounts,
            Err(e) => {
                return Err(e);
            },
        };
        if amount_a <= 0 || amount_b <= 0 {
            return Err(LPError::ZeroAmount);
        }
        Ok((amount_a, amount_b))
    }

    /// Settles a deposit. `balance_a` and `balance_b` are what the ledger
    /// reports for the pool once the planned amounts have been pulled. On
    /// success the reserves are those balances and the receipt says how many
    /// shares to mint.
    pub fn deposit(
        &mut self,
        authorized: bool,
        desired_a: i128,
        min_a: i128,
        desired_b: i128,
        min_b: i128,
        balance_a: i128,
        balance_b: i128,
    ) -> (r: Result<DepositReceipt, LPError>)
        ensures
            match r {
                Ok(receipt) => old(self)@.deposit(
                    authorized,
                    desired_a as int,
                    min_a as int,
                    desired_b as int,
                    min_b as int,
                    balance_a as int,
                    balance_b as int,
                ) == Ok::<(PoolState, (int, int, int)), LPError>(
                    (
                        final(self)@,
                        (
                            receipt.amount_a as int,
                            receipt.amount_b as int,
                            receipt.shares_minted as int,
                        ),
                    ),
                ),
                Err(e) => old(self)@.deposit(
                    authorized,
                    desired_a as int,
                    min_a as int,
                    desired_b as int,
                    min_b as int,
                    balance_a as int,
                    balance_b as int,
                ) == Err::<(PoolState, (int, int, int)), LPError>(e) && final(self)@ == old(self)@,
            },
    {
        proof {
            use_type_invariant(&*self);
        }
        let (amount_a, amount_b) = match self.plan_deposit(
            authorized,
            desired_a,
            min_a,
            desired_b,
            min_b,
        ) {
            Ok(amounts) => amounts,
            Err(e) => {
                return Err(e);
            },
        };
        let new_total = match get_shares_after_deposit(
            self.reserve_a,
            self.reserve_b,
            self.total_shares,
            balance_a,
            balance_b,
        ) {
            Some(total) => total,
            None => {
                return Err(LPError::ArithmeticError);
            },
        };
        let shares_minted = match new_total.checked_sub(self.total_shares) {
            Some(minted) => minted,
            None => {
                return Err(LPError::ArithmeticError);
            },
        };
        self.reserve_a = balance_a;
        self.reserve_b = balance_b;
        self.total_shares = new_total;
        Ok(DepositReceipt { amount_a, amount_b, shares_minted })
    }

    /// The amount that the ledger has to pull from the trader before `swap`
    /// can settle a purchase of `out`, of asset A where `buy_a` and of asset
    /// B otherwise.
    pub fn quote_swap(&self, authorized: bool, buy_a: bool, out: i128, in_max: i128) -> (r: Result<
        i128,
        LPError,
    >)
        ensures
            match r {
                Ok(sold) => self@.quote_swap(authorized, buy_a, out as int, in_max as int) == Ok::<
                    int,
                    LPError,
                >(sold as int),
                Err(e) => self@.quote_swap(authorized, buy_a, out as int, in_max as int) == Err::<
                    int,
                    LPError,
                >(e),
            },
    {
        if !authorized {
            return Err(LPError::NotAuthorized);
        }
        if !self.initialized {
            return Err(LPError::NotInitialized);
        }
        let (reserve_sell, reserve_buy) = if buy_a {
            (self.reserve_b, self.reserve_a)
        } else {
            (self.reserve_a, self.reserve_b)
        };
        let sold = match get_required_input(reserve_sell, reserve_buy, out) {
            Ok(sold) => sold,
            Err(e) => {
                return Err(e);
            },
        };
        if sold > in_max {
            return Err(LPError::SlippageExceeded);
        }
        Ok(sold)
    }

    /// Settles a swap. `balance_a` and `balance_b` are what the ledger
    /// reports for the pool once the quoted amount has been pulled and before
    /// `out` is paid. On success the result is the amount sold, `out` is owed
    /// to the trader, and the reserves are the balances less what is owed.
    pub fn swap(
        &mut self,
        authorized: bool,
        buy_a: bool,
        out: i128,
        in_max: i128,
        balance_a: i128,
        balance_b: i128,
    ) -> (r: Result<i128, LPError>)
        ensures
            match r {
                Ok(sold) => old(self)@.swap(
                    authorized,
                    buy_a,
                    out as int,
                    in_max as int,
                    balance_a as int,
                    balance_b as int,
                ) == Ok::<(PoolState, int), LPError>((final(self)@, sold as int)),
                Err(e) => old(self)@.swap(
                    authorized,
                    buy_a,
                    out as int,
                    in_max as int,
                    balance_a as int,
                    balance_b as int,
                ) == Err::<(PoolState, int), LPError>(e) && final(self)@ == old(self)@,
            },
    {
        proof {
            use_type_invariant(&*self);
        }
        let sold = match self.quote_swap(authorized, buy_a, out, in_max) {
            Ok(sold) => sold,
            Err(e) => {
                return Err(e);
            },
        };
        let (out_a, out_b): (i128, i128) = if buy_a {
            (out, 0)
        } else {
            (0, out)
        };
        let factor_a = match get_invariant_factor(balance_a, self.reserve_a, out_a) {
            Some(f) => f,
            None => {
                return Err(LPError::ArithmeticError);
            },
        };
        let factor_b = match get_invariant_factor(balance_b, self.reserve_b, out_b) {
            Some(f) => f,
            None => {
                return Err(LPError::ArithmeticError);
            },
        };
        let new_invariant = match factor_a.checked_mul(factor_b) {
            Some(p) => p,
            None => {
                return Err(LPError::ArithmeticError);
            },
        };
        let old_invariant = match (FEE_DENOMINATOR * self.reserve_a).checked_mul(
            FEE_DENOMINATOR * self.reserve_b,
        ) {
            Some(p) => p,
            None => {
                return Err(LPError::ArithmeticError);
            },
        };
        if new_invariant < old_invariant {
            return Err(LPError::InvariantViolated);
        }
        let new_reserve_a = match balance_a.checked_sub(out_a) {
            Some(reserve) => reserve,
            None => {
                return Err(LPError::ArithmeticError);
            },
        };
        let new_reserve_b = match balance_b.checked_sub(out_b) {
            Some(reserve) => reserve,
            None => {
                return Err(LPError::ArithmeticError);
            },
        };
        if new_reserve_a <= 0 || new_reserve_b <= 0 {
            return Err(LPError::ReserveDepleted);
        }
        self.reserve_a = new_reserve_a;
        self.reserve_b = new_reserve_b;
        Ok(sold)
    }

    /// The number of shares that the ledger has to pull from the caller
    /// before `withdraw` can settle.
    pub fn plan_withdraw(&self, authorized: bool, share_amount: i128) -> (r: Result<i128, LPError>)
        ensures
            match r {
                Ok(shares) => self@.plan_withdraw(authorized, share_amount as int) == Ok::<
                    int,
                    LPError,
                >(shares as int),
                Err(e) => self@.plan_withdraw(authorized, share_amount as int) == Err::<
                    int,
                    LPError,
                >(e),
            },
    {
        if !authorized {
            return Err(LPError::NotAuthorized);
        }
        if !self.initialized {
            return Err(LPError::NotInitialized);
        }
        Ok(share_amount)
    }

    /// Settles a withdrawal. `balance_a`, `balance_b` and `balance_shares`
    /// are what the ledger reports for the pool once the shares to redeem
    /// have been handed to it. On success the result is the amounts of A and
    /// B owed to the caller, all of `balance_shares` is to be burnt, and the
    /// reserves are the balances less what is owed.
    pub fn withdraw(
        &mut self,
        authorized: bool,
        min_a: i128,
        min_b: i128,
        balance_a: i128,
        balance_b: i128,
        balance_shares: i128,
    ) -> (r: Result<(i128, i128), LPError>)
        ensures
            match r {
                Ok((out_a, out_b)) => old(self)@.withdraw(
                    authorized,
                    min_a as int,
                    min_b as int,
                    balance_a as int,
                    balance_b as int,
                    balance_shares as int,
                ) == Ok::<(PoolState, (int, int)), LPError>(
                    (final(self)@, (out_a as int, out_b as int)),
                ),
                Err(e) => old(self)@.withdraw(
                    authorized,
                    min_a as int,
                    min_b as int,
                    balance_a as int,
                    balance_b as int,
                    balance_shares as int,
                ) == Err::<(PoolState, (int, int)), LPError>(e) && final(self)@ == old(self)@,
            },
    {
        proof {
            use_type_invariant(&*self);
        }
        if !authorized {
            return Err(LPError::NotAuthorized);
        }
        if !self.initialized {
            return Err(LPError::NotInitialized);
        }
        let out_a = match checked_mul_div(balance_a, balance_shares, self.total_shares) {
            Some(q) => q,
            None => {
                return Err(LPError::ArithmeticError);
            },
        };
        let out_b = match checked_mul_div(balance_b, balance_shares, self.total_shares) {
            Some(q) => q,
            None => {
                return Err(LPError::ArithmeticError);
            },
        };
        if out_a < min_a || out_b < min_b {
            return Err(LPError::SlippageExceeded);
        }
        let new_total = match self.total_shares.checked_sub(balance_shares) {
            Some(total) => total,
            None => {
                return Err(LPError::ArithmeticError);
            },
        };
        let new_reserve_a = match balance_a.checked_sub(out_a) {
            Some(reserve) => reserve,
            None => {
                return Err(LPError::ArithmeticError);
            },
        };
        let new_reserve_b = match balance_b.checked_sub(out_b) {
            Some(reserve) => reserve,
            None => {
                return Err(LPError::ArithmeticError);
            },
        };
        self.total_shares = new_total;
        self.reserve_a = new_reserve_a;
        self.reserve_b = new_reserve_b;
        Ok((out_a, out_b))
    }
}

} // verus!

use crate::errors::LPError;
use crate::math::{
    fits_i128, floor_sqrt, lemma_floor_sqrt_bounds, lemma_trunc_div_cancels, mul_div, trunc_div,
};
use crate::model::{deposit_amounts, invariant_factor, required_input, Operation, PoolState};
use vstd::prelude::*;

verus! {

/// A swap that succeeds never lowers the product of the reserves: the fee
/// stays in the pool. It holds of every pool and of whatever the ledger
/// reports.
pub proof fn lemma_swap_never_lowers_product(
    pre: PoolState,
    authorized: bool,
    buy_a: bool,
    out: int,
    in_max: int,
    balance_a: int,
    balance_b: int,
)
    requires
        pre.swap(authorized, buy_a, out, in_max, balance_a, balance_b) is Ok,
    ensures
        ({
            let post = pre.swap(authorized, buy_a, out, in_max, balance_a, balance_b)->Ok_0.0;
            post.reserve_a * post.reserve_b >= pre.reserve_a * pre.reserve_b
        }),
{
    let post = pre.swap(authorized, buy_a, out, in_max, balance_a, balance_b)->Ok_0.0;
    let out_a = if buy_a {
        out
    } else {
        0
    };
    let out_b = if buy_a {
        0
    } else {
        out
    };
    let factor_a = invariant_factor(balance_a, pre.reserve_a, out_a)->Some_0;
    let factor_b = invariant_factor(balance_b, pre.reserve_b, out_b)->Some_0;
    let (ra, rb) = (pre.reserve_a, pre.reserve_b);
    let (na, nb) = (post.reserve_a, post.reserve_b);
    assert(factor_a * factor_b >= (1000 * ra) * (1000 * rb));
    // A factor is at most the new reserve scaled, and one that is negative
    // is closer to zero than the old reserve scaled.
    assert(factor_a <= 1000 * na && factor_b <= 1000 * nb);
    assert(factor_a < 0 ==> 1000 * ra < factor_a);
    assert(factor_b < 0 ==> 1000 * rb < factor_b);
    assert(na * nb >= ra * rb) by (nonlinear_arith)
        requires
            na > 0,
            nb > 0,
            factor_a <= 1000 * na,
            factor_b <= 1000 * nb,
            factor_a < 0 ==> 1000 * ra < factor_a,
            factor_b < 0 ==> 1000 * rb < factor_b,
            factor_a * factor_b >= (1000 * ra) * (1000 * rb),
    ;
}

/// The first deposit into a pool that holds nothing puts in exactly the
/// desired amounts, mints the rounded-down square root of their product, and
/// makes them the reserves. It holds whenever both amounts are positive and
/// their product can be held in 128 bits.
pub proof fn lemma_first_deposit_bootstraps(
    pre: PoolState,
    a: int,
    min_a: int,
    b: int,
    min_b: int,
)
    requires
        pre.initialized,
        pre.reserve_a == 0,
        pre.reserve_b == 0,
        pre.total_shares == 0,
        a > 0,
        b > 0,
        fits_i128(a * b),
    ensures
        pre.deposit(true, a, min_a, b, min_b, a, b) == Ok::<(PoolState, (int, int, int)), LPError>(
            (
                PoolState { reserve_a: a, reserve_b: b, total_shares: floor_sqrt(a * b), ..pre },
                (a, b, floor_sqrt(a * b)),
            ),
        ),
        floor_sqrt(a * b) > 0,
{
    assert(a * b > 0) by (nonlinear_arith)
        requires
            a > 0,
            b > 0,
    ;
    lemma_floor_sqrt_bounds(a * b);
}

/// Depositing into a pool that holds nothing and at once redeeming all the
/// shares minted gives back exactly what was deposited and leaves the pool
/// with nothing: no reserves and no shares. It holds whenever the deposit
/// succeeds and the products of each amount with the shares minted can be
/// held in 128 bits.
pub proof fn lemma_deposit_then_withdraw_round_trip(
    pre: PoolState,
    a: int,
    b: int,
    min_a: int,
    min_b: int,
)
    requires
        pre.initialized,
        pre.reserve_a == 0,
        pre.reserve_b == 0,
        pre.total_shares == 0,
        a > 0,
        b > 0,
        fits_i128(a * b),
        fits_i128(a * floor_sqrt(a * b)),
        fits_i128(b * floor_sqrt(a * b)),
        min_a <= a,
        min_b <= b,
    ensures
        ({
            let minted = floor_sqrt(a * b);
            let funded = PoolState { reserve_a: a, reserve_b: b, total_shares: minted, ..pre };
            &&& pre.deposit(true, a, 0, b, 0, a, b) == Ok::<(PoolState, (int, int, int)), LPError>(
                (funded, (a, b, minted)),
            )
            &&& funded.withdraw(true, min_a, min_b, a, b, minted) == Ok::<
                (PoolState, (int, int)),
                LPError,
            >((pre, (a, b)))
        }),
{
    lemma_first_deposit_bootstraps(pre, a, 0, b, 0);
    let minted = floor_sqrt(a * b);
    lemma_trunc_div_cancels(a, minted);
    lemma_trunc_div_cancels(b, minted);
    let funded = PoolState { reserve_a: a, reserve_b: b, total_shares: minted, ..pre };
    assert(mul_div(a, minted, minted) == Some(a));
    assert(mul_div(b, minted, minted) == Some(b));
    let emptied = PoolState { reserve_a: a - a, reserve_b: b - b, total_shares: minted - minted, ..funded };
    assert(emptied =~= pre);
}

/// Depositing into a pool that has reserves and shares and at once redeeming
/// the shares minted never pays: the pool keeps at least the reserves it
/// had, with the shares it had, so the depositor gets back no more than went
/// in. It holds whenever the deposit only added to what the pool held.
pub proof fn lemma_round_trip_never_profits(
    pre: PoolState,
    desired_a: int,
    min_a: int,
    desired_b: int,
    min_b: int,
    balance_a: int,
    balance_b: int,
    floor_a: int,
    floor_b: int,
)
    requires
        pre.reserve_a > 0,
        pre.reserve_b > 0,
        pre.total_shares > 0,
        balance_a >= pre.reserve_a,
        balance_b >= pre.reserve_b,
        pre.deposit(true, desired_a, min_a, desired_b, min_b, balance_a, balance_b) is Ok,
    ensures
        ({
            let (funded, (_, _, minted)) = pre.deposit(
                true,
                desired_a,
                min_a,
                desired_b,
                min_b,
                balance_a,
                balance_b,
            )->Ok_0;
            &&& minted >= 0
            &&& funded.withdraw(true, floor_a, floor_b, balance_a, balance_b, minted) matches Ok(
                (post, (out_a, out_b)),
            ) ==> {
                &&& post.total_shares == pre.total_shares
                &&& post.reserve_a >= pre.reserve_a
                &&& post.reserve_b >= pre.reserve_b
                &&& 0 <= out_a <= balance_a - pre.reserve_a
                &&& 0 <= out_b <= balance_b - pre.reserve_b
            }
        }),
{
    let (funded, (_, _, minted)) = pre.deposit(
        true,
        desired_a,
        min_a,
        desired_b,
        min_b,
        balance_a,
        balance_b,
    )->Ok_0;
    let total = funded.total_shares;
    lemma_worth_in_shares(balance_a, pre.total_shares, pre.reserve_a);
    lemma_worth_in_shares(balance_b, pre.total_shares, pre.reserve_b);
    let worth_a = trunc_div(balance_a * pre.total_shares, pre.reserve_a);
    let worth_b = trunc_div(balance_b * pre.total_shares, pre.reserve_b);
    assert(total * pre.reserve_a <= worth_a * pre.reserve_a) by (nonlinear_arith)
        requires
            total <= worth_a,
            pre.reserve_a > 0,
    ;
    assert(total * pre.reserve_b <= worth_b * pre.reserve_b) by (nonlinear_arith)
        requires
            total <= worth_b,
            pre.reserve_b > 0,
    ;
    if funded.withdraw(true, floor_a, floor_b, balance_a, balance_b, minted) is Ok {
        lemma_redeemed_share(balance_a, pre.reserve_a, pre.total_shares, total);
        lemma_redeemed_share(balance_b, pre.reserve_b, pre.total_shares, total);
    }
}

/// What a balance that is at least the reserve is worth in shares: at least
/// the shares there are, and no more than the exact proportion.
proof fn lemma_worth_in_shares(balance: int, shares: int, reserve: int)
    requires
        reserve > 0,
        shares > 0,
        balance >= reserve,
    ensures
        trunc_div(balance * shares, reserve) >= shares,
        trunc_div(balance * shares, reserve) * reserve <= balance * shares,
{
    let p = balance * shares;
    assert(p >= reserve * shares && p >= 0) by (nonlinear_arith)
        requires
            p == balance * shares,
            balance >= reserve,
            reserve > 0,
            shares > 0,
    ;
    assert(p / reserve >= shares && (p / reserve) * reserve <= p) by (nonlinear_arith)
        requires
            p >= reserve * shares,
            reserve > 0,
    ;
}

/// Redeeming the shares by which a total grew from `shares` releases no more
/// of a balance than it holds beyond the reserve, where the total is no more
/// than what the balance is worth.
proof fn lemma_redeemed_share(balance: int, reserve: int, shares: int, total: int)
    requires
        reserve > 0,
        shares > 0,
        balance >= reserve,
        total >= shares,
        total * reserve <= balance * shares,
    ensures
        0 <= trunc_div(balance * (total - shares), total) <= balance - reserve,
{
    let minted = total - shares;
    let p = balance * minted;
    assert(p >= 0 && p <= (balance - reserve) * total) by (nonlinear_arith)
        requires
            p == balance * (total - shares),
            minted == total - shares,
            minted >= 0,
            balance >= reserve,
            reserve > 0,
            total * reserve <= balance * shares,
    ;
    assert(0 <= p / total <= balance - reserve) by (nonlinear_arith)
        requires
            0 <= p <= (balance - reserve) * total,
            total > 0,
    ;
}

/// A swap never takes more from the trader than the trader allows. One that
/// succeeds has sold the required amount, which is at most `in_max`. Where
/// the required amount exceeds `in_max`, the swap does not succeed whatever
/// the ledger reports, and of a consenting caller and an initialized pool it
/// is refused with `SlippageExceeded`.
pub proof fn lemma_swap_enforces_max_input(
    pre: PoolState,
    authorized: bool,
    buy_a: bool,
    out: int,
    in_max: int,
    balance_a: int,
    balance_b: int,
)
    ensures
        ({
            let outcome = pre.swap(authorized, buy_a, out, in_max, balance_a, balance_b);
            let required = required_input(pre.reserve_sell(buy_a), pre.reserve_buy(buy_a), out);
            &&& outcome matches Ok((_, sold)) ==> sold <= in_max && required == Ok::<int, LPError>(
                sold,
            )
            &&& required matches Ok(sold) ==> (sold > in_max ==> outcome is Err)
            &&& required matches Ok(sold) ==> (sold > in_max && authorized && pre.initialized
                ==> outcome == Err::<(PoolState, int), LPError>(LPError::SlippageExceeded))
        }),
{
}

/// Into a pool whose reserves are both zero the desired amounts go in as they
/// are, whatever the minimums. Into any other pool a deposit never pulls an
/// amount outside the depositor's bounds: one asset goes in at the desired
/// amount and the other at the matching amount, which lies between its
/// minimum and its desired amount; where the matching amount of B fits under
/// `desired_b` but not over `min_b`, or the matching amount of A is beyond
/// either bound, the deposit is refused with `SlippageExceeded`.
pub proof fn lemma_deposit_enforces_bounds(
    desired_a: int,
    min_a: int,
    desired_b: int,
    min_b: int,
    reserve_a: int,
    reserve_b: int,
)
    ensures
        ({
            let amounts = deposit_amounts(desired_a, min_a, desired_b, min_b, reserve_a, reserve_b);
            let matching_b = mul_div(desired_a, reserve_b, reserve_a);
            let matching_a = mul_div(desired_b, reserve_a, reserve_b);
            let refused = Err::<(int, int), LPError>(LPError::SlippageExceeded);
            if reserve_a == 0 && reserve_b == 0 {
                amounts == Ok::<(int, int), LPError>((desired_a, desired_b))
            } else {
                &&& amounts matches Ok((amount_a, amount_b)) ==> {
                    ||| amount_a == desired_a && min_b <= amount_b <= desired_b
                    ||| amount_b == desired_b && min_a <= amount_a <= desired_a
                }
                &&& matching_b matches Some(amount_b) ==> (amount_b <= desired_b && amount_b
                    < min_b ==> amounts == refused)
                &&& matching_b matches Some(amount_b) ==> (matching_a matches Some(amount_a) ==> (
                amount_b > desired_b && (amount_a > desired_a || amount_a < min_a) ==> amounts
                    == refused))
            }
        }),
{
}

/// A withdrawal never releases less than the caller's minimums. One that
/// succeeds releases at least `min_a` and `min_b`. Where either share of the
/// balances falls short, the withdrawal does not succeed, and of a consenting
/// caller and an initialized pool it is refused with `SlippageExceeded`.
pub proof fn lemma_withdraw_enforces_minimums(
    pre: PoolState,
    authorized: bool,
    min_a: int,
    min_b: int,
    balance_a: int,
    balance_b: int,
    balance_shares: int,
)
    ensures
        ({
            let outcome = pre.withdraw(
                authorized,
                min_a,
                min_b,
                balance_a,
                balance_b,
                balance_shares,
            );
            let share_a = mul_div(balance_a, balance_shares, pre.total_shares);
            let share_b = mul_div(balance_b, balance_shares, pre.total_shares);
            &&& outcome matches Ok((_, (out_a, out_b))) ==> {
                &&& out_a >= min_a
                &&& out_b >= min_b
                &&& share_a == Some(out_a)
                &&& share_b == Some(out_b)
            }
            &&& share_a matches Some(out_a) ==> (share_b matches Some(out_b) ==> (out_a < min_a
                || out_b < min_b ==> outcome is Err))
            &&& share_a matches Some(out_a) ==> (share_b matches Some(out_b) ==> ((out_a < min_a
                || out_b < min_b) && authorized && pre.initialized ==> outcome == Err::<
                (PoolState, (int, int)),
                LPError,
            >(LPError::SlippageExceeded)))
        }),
{
}

/// No operation turns a pool into another one: whether it succeeds or is
/// refused, the pool afterwards is initialized if and only if it was, holds
/// the same three identities, and is well formed if it was.
pub proof fn lemma_operation_keeps_the_pool(pre: PoolState, op: Operation)
    ensures
        pre.after(op).same_pool_as(pre),
        pre.well_formed() ==> pre.after(op).well_formed(),
{
}

/// A trade that pays exactly the required input for an output that is not
/// negative passes the constant-product check: rounding the input up keeps
/// the pool whole. With balances that show the input come in and nothing
/// else, the swap is refused only where a step of the check cannot be held in
/// 128 bits.
pub proof fn lemma_required_input_is_enough(pre: PoolState, buy_a: bool, out: int, in_max: int)
    requires
        pre.initialized,
        pre.reserve_a >= 0,
        pre.reserve_b >= 0,
        out >= 0,
        pre.quote_swap(true, buy_a, out, in_max) is Ok,
    ensures
        ({
            let sold = pre.quote_swap(true, buy_a, out, in_max)->Ok_0;
            let balance_a = if buy_a {
                pre.reserve_a
            } else {
                pre.reserve_a + sold
            };
            let balance_b = if buy_a {
                pre.reserve_b + sold
            } else {
                pre.reserve_b
            };
            let outcome = pre.swap(true, buy_a, out, in_max, balance_a, balance_b);
            &&& sold > 0
            &&& outcome is Err ==> outcome->Err_0 == LPError::ArithmeticError
            &&& outcome matches Ok((post, paid)) ==> {
                &&& paid == sold
                &&& post.reserve_sell(buy_a) == pre.reserve_sell(buy_a) + sold
                &&& post.reserve_buy(buy_a) == pre.reserve_buy(buy_a) - out
            }
        }),
{
    let rs = pre.reserve_sell(buy_a);
    let rb = pre.reserve_buy(buy_a);
    let sold = pre.quote_swap(true, buy_a, out, in_max)->Ok_0;
    let n = rs * out * 1000;
    let d = (rb - out) * 997;
    assert(sold == n / d + 1);
    assert(n >= 0) by (nonlinear_arith)
        requires
            n == rs * out * 1000,
            rs >= 0,
            out >= 0,
    ;
    assert(d > 0);
    assert(n / d >= 0 && sold * d > n) by (nonlinear_arith)
        requires
            n >= 0,
            d > 0,
            sold == n / d + 1,
    ;
    // The factors of the two sides, as the check computes them.
    let factor_sell = 1000 * rs + 997 * sold;
    let factor_buy = 1000 * rb + 1000 * (0 - out);
    assert(factor_sell * factor_buy >= (1000 * rs) * (1000 * rb)) by (nonlinear_arith)
        requires
            factor_sell == 1000 * rs + 997 * sold,
            factor_buy == 1000 * rb + 1000 * (0 - out),
            sold * ((rb - out) * 997) > rs * out * 1000,
    ;
    assert(factor_sell * factor_buy == factor_buy * factor_sell) by (nonlinear_arith);
    assert((1000 * rs) * (1000 * rb) == (1000 * rb) * (1000 * rs)) by (nonlinear_arith);
}

/// A pool is solvent when it is initialized: it holds nothing and owes
/// nothing.
pub proof fn lemma_initialized_pool_is_solvent(
    pre: PoolState,
    asset_a: Seq<u8>,
    asset_b: Seq<u8>,
    share_asset: Seq<u8>,
)
    ensures
        PoolState::uninitialized().solvent(),
        pre.initialize(asset_a, asset_b, share_asset) matches Ok(post) ==> post.solvent()
            && post.well_formed(),
{
}

/// Served by a sound ledger, no operation makes a solvent pool insolvent:
/// no amount turns negative, and while shares are outstanding both reserves
/// stay strictly positive.
pub proof fn lemma_operation_keeps_solvent(pre: PoolState, op: Operation)
    requires
        pre.solvent(),
        pre.ledger_sound_for(op),
    ensures
        pre.after(op).solvent(),
{
    match op {
        Operation::Deposit {
            authorized,
            desired_a,
            min_a,
            desired_b,
            min_b,
            balance_a,
            balance_b,
        } => {
            if pre.deposit(authorized, desired_a, min_a, desired_b, min_b, balance_a, balance_b)
                is Ok {
                if pre.reserve_a > 0 && pre.reserve_b > 0 {
                    lemma_share_of_balance(balance_a, pre.total_shares, pre.reserve_a);
                    lemma_share_of_balance(balance_b, pre.total_shares, pre.reserve_b);
                } else {
                    lemma_floor_sqrt_bounds(balance_a * balance_b);
                    assert(balance_a * balance_b > 0 ==> balance_a > 0 && balance_b > 0)
                        by (nonlinear_arith)
                        requires
                            balance_a >= 0,
                            balance_b >= 0,
                    ;
                }
            }
        },
        Operation::Swap { .. } => {},
        Operation::Withdraw { authorized, min_a, min_b, balance_a, balance_b, balance_shares } => {
            if pre.withdraw(authorized, min_a, min_b, balance_a, balance_b, balance_shares) is Ok {
                lemma_share_of_balance(balance_a, balance_shares, pre.total_shares);
                lemma_share_of_balance(balance_b, balance_shares, pre.total_shares);
            }
        },
    }
}

/// How `balance * part / whole`, rounded toward zero, compares with
/// `balance`, for a balance that is not negative and a positive `whole`.
proof fn lemma_share_of_balance(balance: int, part: int, whole: int)
    requires
        balance >= 0,
        whole > 0,
    ensures
        part >= 0 ==> trunc_div(balance * part, whole) >= 0,
        part <= 0 ==> trunc_div(balance * part, whole) <= 0,
        balance == 0 ==> trunc_div(balance * part, whole) == 0,
        part <= whole ==> trunc_div(balance * part, whole) <= balance,
        part < whole && balance > 0 ==> trunc_div(balance * part, whole) < balance,
{
    let p = balance * part;
    assert(part >= 0 ==> p >= 0) by (nonlinear_arith)
        requires
            p == balance * part,
            balance >= 0,
    ;
    assert(part <= 0 ==> p <= 0) by (nonlinear_arith)
        requires
            p == balance * part,
            balance >= 0,
    ;
    assert(balance == 0 ==> p == 0) by (nonlinear_arith)
        requires
            p == balance * part,
    ;
    assert(part <= whole ==> p <= balance * whole) by (nonlinear_arith)
        requires
            p == balance * part,
            balance >= 0,
    ;
    assert(part < whole && balance > 0 ==> p < balance * whole) by (nonlinear_arith)
        requires
            p == balance * part,
            balance >= 0,
    ;
    assert(p >= 0 ==> 0 <= p / whole) by (nonlinear_arith)
        requires
            whole > 0,
    ;
    assert(p <= 0 ==> 0 <= (-p) / whole) by (nonlinear_arith)
        requires
            whole > 0,
    ;
    assert(p <= balance * whole && p >= 0 ==> p / whole <= balance) by (nonlinear_arith)
        requires
            whole > 0,
    ;
    assert(p < balance * whole && p >= 0 ==> p / whole < balance) by (nonlinear_arith)
        requires
            whole > 0,
    ;
}

/// No sequence of operations served by a sound ledger drives a reserve of a
/// solvent pool to zero or below while shares are outstanding.
pub proof fn lemma_reserves_stay_positive(pre: PoolState, ops: Seq<Operation>)
    requires
        pre.solvent(),
        pre.ledger_sound_for_all(ops),
    ensures
        pre.after_all(ops).solvent(),
    decreases ops.len(),
{
    if ops.len() > 0 {
        lemma_operation_keeps_solvent(pre, ops[0]);
        lemma_reserves_stay_positive(pre.after(ops[0]), ops.drop_first());
    }
}

} // verus!

use liquidity_pool::contract::{get_invariant_factor, get_required_input, get_shares_after_deposit};
use liquidity_pool::{get_deposit_amounts, DepositReceipt, Identity, LPError, LiquidityPool};

fn id(byte: u8) -> Identity {
    Identity::new(vec![byte])
}

fn fresh_pool() -> LiquidityPool {
    let mut pool = LiquidityPool::new();
    assert_eq!(pool.initialize(id(1), id(2), id(9)), Ok(()));
    pool
}

fn pool_with(reserve_a: i128, reserve_b: i128, total_shares: i128) -> LiquidityPool {
    LiquidityPool::restore(id(1), id(2), id(9), reserve_a, reserve_b, total_shares).unwrap()
}

#[test]
fn new_pool_is_uninitialized_and_empty() {
    let pool = LiquidityPool::new();
    assert!(!pool.is_initialized());
    assert_eq!(pool.get_rsrvs(), (0, 0));
    assert_eq!(pool.get_shares(), 0);
}

#[test]
fn initialize_sets_identities_and_zeroes_state() {
    let pool = fresh_pool();
    assert!(pool.is_initialized());
    assert_eq!(pool.asset_a().as_bytes(), &vec![1u8]);
    assert_eq!(pool.asset_b().as_bytes(), &vec![2u8]);
    assert_eq!(pool.share_id().as_bytes(), &vec![9u8]);
    assert_eq!(pool.get_rsrvs(), (0, 0));
    assert_eq!(pool.get_shares(), 0);
}

#[test]
fn initialize_refuses_assets_out_of_order() {
    let mut pool = LiquidityPool::new();
    assert_eq!(pool.can_initialize(&id(2), &id(1)), Err(LPError::InvalidOrdering));
    assert_eq!(pool.initialize(id(2), id(1), id(9)), Err(LPError::InvalidOrdering));
    assert!(!pool.is_initialized());
}

#[test]
fn initialize_refuses_the_same_asset_twice() {
    let mut pool = LiquidityPool::new();
    assert_eq!(pool.initialize(id(1), id(1), id(9)), Err(LPError::InvalidOrdering));
    assert!(!pool.is_initialized());
}

#[test]
fn initialize_twice_is_refused_and_changes_nothing() {
    let mut pool = fresh_pool();
    assert_eq!(
        pool.deposit(true, 100, 0, 400, 0, 100, 400).map(|r| r.shares_minted),
        Ok(200)
    );
    assert_eq!(pool.can_initialize(&id(3), &id(4)), Err(LPError::AlreadyInitialized));
    assert_eq!(pool.initialize(id(3), id(4), id(5)), Err(LPError::AlreadyInitialized));
    assert_eq!(pool.asset_a().as_bytes(), &vec![1u8]);
    assert_eq!(pool.asset_b().as_bytes(), &vec![2u8]);
    assert_eq!(pool.share_id().as_bytes(), &vec![9u8]);
    assert_eq!(pool.get_rsrvs(), (100, 400));
    assert_eq!(pool.get_shares(), 200);
}

#[test]
fn restore_refuses_assets_out_of_order() {
    assert_eq!(
        LiquidityPool::restore(id(2), id(1), id(9), 1, 1, 1).err(),
        Some(LPError::InvalidOrdering)
    );
}

#[test]
fn operations_on_an_uninitialized_pool_are_refused() {
    let mut pool = LiquidityPool::new();
    assert_eq!(pool.plan_deposit(true, 1, 0, 1, 0), Err(LPError::NotInitialized));
    assert_eq!(pool.deposit(true, 1, 0, 1, 0, 1, 1), Err(LPError::NotInitialized));
    assert_eq!(pool.quote_swap(true, true, 1, 1), Err(LPError::NotInitialized));
    assert_eq!(pool.swap(true, true, 1, 1, 1, 1), Err(LPError::NotInitialized));
    assert_eq!(pool.plan_withdraw(true, 1), Err(LPError::NotInitialized));
    assert_eq!(pool.withdraw(true, 0, 0, 1, 1, 1), Err(LPError::NotInitialized));
    assert_eq!(pool, LiquidityPool::new());
}

#[test]
fn operations_without_consent_are_refused() {
    let mut pool = pool_with(1000, 1000, 1000);
    assert_eq!(pool.plan_deposit(false, 10, 0, 10, 0), Err(LPError::NotAuthorized));
    assert_eq!(pool.deposit(false, 10, 0, 10, 0, 1010, 1010), Err(LPError::NotAuthorized));
    assert_eq!(pool.quote_swap(false, true, 100, 200), Err(LPError::NotAuthorized));
    assert_eq!(pool.swap(false, true, 100, 200, 1000, 1112), Err(LPError::NotAuthorized));
    assert_eq!(pool.plan_withdraw(false, 10), Err(LPError::NotAuthorized));
    assert_eq!(pool.withdraw(false, 0, 0, 1000, 1000, 10), Err(LPError::NotAuthorized));
    assert_eq!(pool.get_rsrvs(), (1000, 1000));
    assert_eq!(pool.get_shares(), 1000);
}

#[test]
fn consent_is_checked_before_initialization() {
    let mut pool = LiquidityPool::new();
    assert_eq!(pool.deposit(false, 1, 0, 1, 0, 1, 1), Err(LPError::NotAuthorized));
    assert_eq!(pool.swap(false, true, 1, 1, 1, 1), Err(LPError::NotAuthorized));
    assert_eq!(pool.withdraw(false, 0, 0, 1, 1, 1), Err(LPError::NotAuthorized));
}

#[test]
fn deposit_amounts_into_empty_pool_are_the_desired_ones() {
    assert_eq!(get_deposit_amounts(100, 0, 400, 0, 0, 0), Ok((100, 400)));
    assert_eq!(get_deposit_amounts(7, 50, 3, 50, 0, 0), Ok((7, 3)));
}

#[test]
fn deposit_amounts_follow_the_reserve_ratio() {
    assert_eq!(get_deposit_amounts(10, 0, 1000, 0, 100, 400), Ok((10, 40)));
    assert_eq!(get_deposit_amounts(10, 0, 40, 40, 100, 400), Ok((10, 40)));
    assert_eq!(get_deposit_amounts(10, 5, 20, 0, 100, 400), Ok((5, 20)));
}

#[test]
fn deposit_amounts_round_toward_zero() {
    assert_eq!(get_deposit_amounts(7, 0, 100, 0, 2, 1), Ok((7, 3)));
    assert_eq!(get_deposit_amounts(-7, -100, 10, -100, 2, 1), Ok((-7, -3)));
    assert_eq!(get_deposit_amounts(100, 0, 3, 0, 2, 5), Ok((1, 3)));
}

#[test]
fn deposit_amounts_enforce_the_minimum_of_b() {
    assert_eq!(
        get_deposit_amounts(10, 0, 1000, 41, 100, 400),
        Err(LPError::SlippageExceeded)
    );
}

#[test]
fn deposit_amounts_enforce_the_bounds_of_a() {
    assert_eq!(
        get_deposit_amounts(10, 6, 20, 0, 100, 400),
        Err(LPError::SlippageExceeded)
    );
    assert_eq!(
        get_deposit_amounts(1, 0, -2, 0, -1, 1),
        Err(LPError::SlippageExceeded)
    );
}

#[test]
fn deposit_amounts_report_what_cannot_be_computed() {
    assert_eq!(
        get_deposit_amounts(i128::MAX, 0, 1, 0, 2, 2),
        Err(LPError::ArithmeticError)
    );
    assert_eq!(get_deposit_amounts(1, 0, 1, 0, 0, 5), Err(LPError::ArithmeticError));
    assert_eq!(
        get_deposit_amounts(10, 0, 1, 0, 1, i128::MAX),
        Err(LPError::ArithmeticError)
    );
}

#[test]
fn first_deposit_mints_the_geometric_mean() {
    let mut pool = fresh_pool();
    assert_eq!(pool.plan_deposit(true, 100, 0, 400, 0), Ok((100, 400)));
    assert_eq!(
        pool.deposit(true, 100, 0, 400, 0, 100, 400),
        Ok(DepositReceipt { amount_a: 100, amount_b: 400, shares_minted: 200 })
    );
    assert_eq!(pool.get_rsrvs(), (100, 400));
    assert_eq!(pool.get_shares(), 200);
}

#[test]
fn first_deposit_rounds_the_root_down() {
    let mut pool = fresh_pool();
    assert_eq!(
        pool.deposit(true, 10, 0, 10, 0, 10, 11).map(|r| r.shares_minted),
        Ok(10)
    );
    assert_eq!(pool.get_rsrvs(), (10, 11));
    assert_eq!(pool.get_shares(), 10);
}

#[test]
fn proportional_deposit_mints_the_smaller_ratio() {
    let mut pool = pool_with(100, 400, 200);
    assert_eq!(pool.plan_deposit(true, 10, 0, 1000, 0), Ok((10, 40)));
    assert_eq!(
        pool.deposit(true, 10, 0, 1000, 0, 110, 440),
        Ok(DepositReceipt { amount_a: 10, amount_b: 40, shares_minted: 20 })
    );
    assert_eq!(pool.get_rsrvs(), (110, 440));
    assert_eq!(pool.get_shares(), 220);
}

#[test]
fn unbalanced_balances_mint_by_the_smaller_side() {
    assert_eq!(get_shares_after_deposit(100, 400, 200, 110, 450), Some(220));
    assert_eq!(get_shares_after_deposit(100, 400, 200, 120, 440), Some(220));
    let mut pool = pool_with(100, 400, 200);
    assert_eq!(
        pool.deposit(true, 10, 0, 1000, 0, 110, 450).map(|r| r.shares_minted),
        Ok(20)
    );
    assert_eq!(pool.get_rsrvs(), (110, 450));
    assert_eq!(pool.get_shares(), 220);
}

#[test]
fn deposit_trusts_the_reported_balances_not_the_request() {
    let mut pool = pool_with(100, 400, 200);
    assert_eq!(
        pool.deposit(true, 10, 0, 1000, 0, 109, 436),
        Ok(DepositReceipt { amount_a: 10, amount_b: 40, shares_minted: 18 })
    );
    assert_eq!(pool.get_rsrvs(), (109, 436));
    assert_eq!(pool.get_shares(), 218);
}

#[test]
fn deposit_refuses_an_amount_that_is_not_positive() {
    let mut pool = fresh_pool();
    assert_eq!(pool.plan_deposit(true, 0, 0, 5, 0), Err(LPError::ZeroAmount));
    assert_eq!(pool.plan_deposit(true, 5, 0, -1, -5), Err(LPError::ZeroAmount));
    assert_eq!(pool.deposit(true, 0, 0, 5, 0, 0, 5), Err(LPError::ZeroAmount));
    let mut funded = pool_with(100, 400, 200);
    assert_eq!(funded.plan_deposit(true, 0, 0, 1000, 0), Err(LPError::ZeroAmount));
    assert_eq!(funded.deposit(true, 1000, 0, 3, 0, 100, 403), Err(LPError::ZeroAmount));
    assert_eq!(funded.get_rsrvs(), (100, 400));
    assert_eq!(funded.get_shares(), 200);
}

#[test]
fn deposit_enforces_slippage_and_changes_nothing() {
    let mut pool = pool_with(100, 400, 200);
    assert_eq!(pool.plan_deposit(true, 10, 0, 1000, 41), Err(LPError::SlippageExceeded));
    assert_eq!(
        pool.deposit(true, 10, 0, 1000, 41, 110, 440),
        Err(LPError::SlippageExceeded)
    );
    assert_eq!(pool.deposit(true, 10, 6, 20, 0, 105, 420), Err(LPError::SlippageExceeded));
    assert_eq!(pool.get_rsrvs(), (100, 400));
    assert_eq!(pool.get_shares(), 200);
}

#[test]
fn deposit_reports_what_cannot_be_computed() {
    let mut pool = fresh_pool();
    assert_eq!(
        pool.deposit(true, 1, 0, 1, 0, i128::MAX, 2),
        Err(LPError::ArithmeticError)
    );
    assert_eq!(pool.deposit(true, 1, 0, 1, 0, -1, 1), Err(LPError::ArithmeticError));
    assert_eq!(pool.get_rsrvs(), (0, 0));
    let mut funded = pool_with(1, 1, i128::MAX);
    assert_eq!(funded.deposit(true, 1, 0, 1, 0, 2, 2), Err(LPError::ArithmeticError));
    assert_eq!(funded.get_rsrvs(), (1, 1));
    assert_eq!(get_shares_after_deposit(0, 0, 0, i128::MAX, i128::MAX), None);
    assert_eq!(get_shares_after_deposit(0, 0, 0, -2, 2), None);
    assert_eq!(get_shares_after_deposit(0, 0, 0, -2, -2), Some(2));
}

#[test]
fn deposit_then_withdraw_everything_returns_the_deposit() {
    let mut pool = fresh_pool();
    let receipt = pool.deposit(true, 100, 0, 400, 0, 100, 400).unwrap();
    assert_eq!(receipt.shares_minted, 200);
    assert_eq!(
        pool.withdraw(true, 100, 400, 100, 400, receipt.shares_minted),
        Ok((100, 400))
    );
    assert_eq!(pool.get_rsrvs(), (0, 0));
    assert_eq!(pool.get_shares(), 0);
    assert_eq!(pool, fresh_pool());
}

#[test]
fn round_trip_with_an_inexact_root() {
    let mut pool = fresh_pool();
    let receipt = pool.deposit(true, 3, 0, 5, 0, 3, 5).unwrap();
    assert_eq!(receipt.shares_minted, 3);
    assert_eq!(pool.withdraw(true, 3, 5, 3, 5, 3), Ok((3, 5)));
    assert_eq!(pool.get_rsrvs(), (0, 0));
    assert_eq!(pool.get_shares(), 0);
}

#[test]
fn partial_withdraw_releases_the_proportion() {
    let mut pool = pool_with(100, 400, 200);
    assert_eq!(pool.plan_withdraw(true, 50), Ok(50));
    assert_eq!(pool.withdraw(true, 25, 100, 100, 400, 50), Ok((25, 100)));
    assert_eq!(pool.get_rsrvs(), (75, 300));
    assert_eq!(pool.get_shares(), 150);
}

#[test]
fn withdraw_rounds_toward_zero() {
    let mut pool = pool_with(100, 401, 3);
    assert_eq!(pool.withdraw(true, 0, 0, 100, 401, 1), Ok((33, 133)));
    assert_eq!(pool.get_rsrvs(), (67, 268));
    assert_eq!(pool.get_shares(), 2);
}

#[test]
fn withdraw_redeems_every_share_the_pool_holds() {
    let mut pool = pool_with(100, 400, 200);
    assert_eq!(pool.withdraw(true, 0, 0, 100, 400, 60), Ok((30, 120)));
    assert_eq!(pool.get_rsrvs(), (70, 280));
    assert_eq!(pool.get_shares(), 140);
}

#[test]
fn withdraw_counts_balances_beyond_the_reserves() {
    let mut pool = pool_with(100, 400, 200);
    assert_eq!(pool.withdraw(true, 0, 0, 120, 400, 100), Ok((60, 200)));
    assert_eq!(pool.get_rsrvs(), (60, 200));
    assert_eq!(pool.get_shares(), 100);
}

#[test]
fn withdraw_enforces_the_minimums_and_changes_nothing() {
    let mut pool = pool_with(100, 400, 200);
    assert_eq!(
        pool.withdraw(true, 26, 100, 100, 400, 50),
        Err(LPError::SlippageExceeded)
    );
    assert_eq!(
        pool.withdraw(true, 25, 101, 100, 400, 50),
        Err(LPError::SlippageExceeded)
    );
    assert_eq!(pool.get_rsrvs(), (100, 400));
    assert_eq!(pool.get_shares(), 200);
}

#[test]
fn withdraw_reports_what_cannot_be_computed() {
    let mut empty = fresh_pool();
    assert_eq!(empty.withdraw(true, 0, 0, 10, 10, 1), Err(LPError::ArithmeticError));
    let mut pool = pool_with(100, 400, 200);
    assert_eq!(
        pool.withdraw(true, 0, 0, i128::MAX, 400, 2),
        Err(LPError::ArithmeticError)
    );
    assert_eq!(
        pool.withdraw(true, i128::MIN, i128::MIN, 1, 1, i128::MIN),
        Err(LPError::ArithmeticError)
    );
    assert_eq!(pool.get_rsrvs(), (100, 400));
    assert_eq!(pool.get_shares(), 200);
}

#[test]
fn swap_input_charges_the_fee_and_rounds_up() {
    assert_eq!(get_required_input(1000, 1000, 100), Ok(112));
    let pool = pool_with(1000, 1000, 1000);
    assert_eq!(pool.quote_swap(true, true, 100, 112), Ok(112));
    assert_eq!(pool.quote_swap(true, false, 100, 112), Ok(112));
}

#[test]
fn swap_input_uses_the_reserves_of_the_right_side() {
    let pool = pool_with(1000, 4000, 2000);
    assert_eq!(pool.quote_swap(true, true, 100, i128::MAX), Ok(446));
    assert_eq!(pool.quote_swap(true, false, 100, i128::MAX), Ok(26));
    assert_eq!(get_required_input(4000, 1000, 100), Ok(446));
    assert_eq!(get_required_input(1000, 4000, 100), Ok(26));
}

#[test]
fn swap_input_is_one_for_an_output_of_zero() {
    assert_eq!(get_required_input(1000, 1000, 0), Ok(1));
}

#[test]
fn swap_input_rounds_down_below_zero() {
    assert_eq!(get_required_input(1000, 1000, -1), Ok(-1));
}

#[test]
fn swap_refuses_an_output_that_the_reserve_cannot_cover() {
    let mut pool = pool_with(1000, 1000, 1000);
    assert_eq!(pool.quote_swap(true, true, 1000, i128::MAX), Err(LPError::InsufficientReserve));
    assert_eq!(pool.quote_swap(true, false, 1001, i128::MAX), Err(LPError::InsufficientReserve));
    assert_eq!(pool.quote_swap(true, true, 999, i128::MAX), Ok(1002007));
    assert_eq!(
        pool.swap(true, true, 1000, i128::MAX, 1000, 2000),
        Err(LPError::InsufficientReserve)
    );
    let empty = fresh_pool();
    assert_eq!(empty.quote_swap(true, true, 0, 10), Err(LPError::InsufficientReserve));
    assert_eq!(pool.get_rsrvs(), (1000, 1000));
}

#[test]
fn swap_enforces_the_maximum_input() {
    let mut pool = pool_with(1000, 1000, 1000);
    assert_eq!(pool.quote_swap(true, true, 100, 111), Err(LPError::SlippageExceeded));
    assert_eq!(
        pool.swap(true, true, 100, 111, 1000, 1112),
        Err(LPError::SlippageExceeded)
    );
    assert_eq!(pool.get_rsrvs(), (1000, 1000));
    assert_eq!(pool.swap(true, true, 100, 112, 1000, 1112), Ok(112));
}

#[test]
fn swap_reports_what_cannot_be_computed() {
    let pool = pool_with(i128::MAX, 1000, 1000);
    assert_eq!(pool.quote_swap(true, false, 2, i128::MAX), Err(LPError::ArithmeticError));
    let wide = pool_with(1, i128::MAX, 1);
    assert_eq!(wide.quote_swap(true, false, 1, i128::MAX), Err(LPError::ArithmeticError));
    let mut big = pool_with(1 << 100, 1 << 100, 1);
    assert_eq!(
        big.swap(true, true, 0, 1, 1 << 100, (1 << 100) + 1),
        Err(LPError::ArithmeticError)
    );
    assert_eq!(big.get_rsrvs(), (1 << 100, 1 << 100));
}

#[test]
fn swap_buying_a_moves_the_reserves() {
    let mut pool = pool_with(1000, 1000, 1000);
    assert_eq!(pool.swap(true, true, 100, 200, 1000, 1112), Ok(112));
    assert_eq!(pool.get_rsrvs(), (900, 1112));
    assert_eq!(pool.get_shares(), 1000);
    assert!(900 * 1112 >= 1000 * 1000);
}

#[test]
fn swap_buying_b_moves_the_reserves() {
    let mut pool = pool_with(1000, 1000, 1000);
    assert_eq!(pool.swap(true, false, 100, 200, 1112, 1000), Ok(112));
    assert_eq!(pool.get_rsrvs(), (1112, 900));
    assert_eq!(pool.get_shares(), 1000);
}

#[test]
fn swap_accepts_more_than_the_required_input() {
    let mut pool = pool_with(1000, 1000, 1000);
    assert_eq!(pool.swap(true, true, 100, 200, 1000, 1150), Ok(112));
    assert_eq!(pool.get_rsrvs(), (900, 1150));
}

#[test]
fn swap_refuses_a_trade_that_breaks_the_invariant() {
    let mut pool = pool_with(1000, 1000, 1000);
    assert_eq!(
        pool.swap(true, true, 100, 200, 1000, 1111),
        Err(LPError::InvariantViolated)
    );
    assert_eq!(
        pool.swap(true, false, 100, 200, 1111, 1000),
        Err(LPError::InvariantViolated)
    );
    assert_eq!(
        pool.swap(true, true, 100, 200, 999, 1112),
        Err(LPError::InvariantViolated)
    );
    assert_eq!(pool.get_rsrvs(), (1000, 1000));
    assert_eq!(pool.get_shares(), 1000);
}

#[test]
fn swap_refuses_to_deplete_a_reserve() {
    let mut pool = pool_with(0, 1000, 0);
    assert_eq!(pool.quote_swap(true, false, 100, 1), Ok(1));
    assert_eq!(
        pool.swap(true, false, 100, 1, 1, 100),
        Err(LPError::ReserveDepleted)
    );
    assert_eq!(pool.get_rsrvs(), (0, 1000));
}

#[test]
fn invariant_factor_counts_inflow_less_the_fee() {
    assert_eq!(get_invariant_factor(1112, 1000, 0), Some(1_111_664));
    assert_eq!(get_invariant_factor(1000, 1000, 100), Some(900_000));
    assert_eq!(get_invariant_factor(1000, 1000, 0), Some(1_000_000));
    assert_eq!(get_invariant_factor(1001, 1000, 0), Some(1_000_997));
    assert_eq!(get_invariant_factor(999, 1000, 0), Some(999_000));
}

#[test]
fn invariant_factor_reports_what_cannot_be_computed() {
    assert_eq!(get_invariant_factor(0, i128::MAX, 0), None);
    assert_eq!(get_invariant_factor(i128::MAX, -1, 0), None);
    assert_eq!(get_invariant_factor(i128::MAX, 0, 0), None);
    assert_eq!(get_invariant_factor(0, 0, i128::MIN), None);
}

#[test]
fn reads_do_not_change_the_pool() {
    let pool = pool_with(100, 400, 200);
    assert_eq!(pool.get_rsrvs(), (100, 400));
    assert_eq!(pool.get_rsrvs(), (100, 400));
    assert_eq!(pool.get_shares(), 200);
    assert_eq!(pool.get_shares(), 200);
    assert_eq!(pool.balance(&id(7)), 200);
    assert_eq!(pool.balance(&id(8)), 200);
    assert_eq!(pool, pool_with(100, 400, 200));
}

#[test]
fn reserves_stay_positive_over_a_run_of_operations() {
    let mut pool = fresh_pool();
    pool.deposit(true, 1000, 0, 1000, 0, 1000, 1000).unwrap();
    assert_eq!(pool.get_shares(), 1000);
    assert_eq!(pool.swap(true, true, 100, 200, 1000, 1112), Ok(112));
    let before = pool.get_rsrvs();
    let sold = pool.quote_swap(true, false, 300, i128::MAX).unwrap();
    assert_eq!(sold, 334);
    assert_eq!(pool.swap(true, false, 300, i128::MAX, 900 + sold, 1112), Ok(sold));
    let after = pool.get_rsrvs();
    assert_eq!(after, (1234, 812));
    assert!(after.0 * after.1 >= before.0 * before.1);
    assert_eq!(pool.withdraw(true, 0, 0, 1234, 812, 999), Ok((1232, 811)));
    assert_eq!(pool.get_rsrvs(), (2, 1));
    assert_eq!(pool.get_shares(), 1);
    assert_eq!(pool.withdraw(true, 0, 0, 2, 1, 1), Ok((2, 1)));
    assert_eq!(pool.get_rsrvs(), (0, 0));
    assert_eq!(pool.get_shares(), 0);
}

#[test]
fn deposit_then_withdraw_into_a_funded_pool_gives_the_deposit_back() {
    let mut pool = pool_with(100, 400, 200);
    let receipt = pool.deposit(true, 10, 0, 1000, 0, 110, 440).unwrap();
    assert_eq!(receipt.shares_minted, 20);
    assert_eq!(pool.withdraw(true, 0, 0, 110, 440, 20), Ok((10, 40)));
    assert_eq!(pool.get_rsrvs(), (100, 400));
    assert_eq!(pool.get_shares(), 200);
}

#[test]
fn deposit_then_withdraw_never_pays() {
    let mut pool = pool_with(100, 400, 200);
    let receipt = pool.deposit(true, 10, 0, 1000, 0, 110, 450).unwrap();
    assert_eq!(receipt.shares_minted, 20);
    assert_eq!(pool.withdraw(true, 0, 0, 110, 450, 20), Ok((10, 40)));
    assert_eq!(pool.get_rsrvs(), (100, 410));
    assert_eq!(pool.get_shares(), 200);

    let mut odd = pool_with(7, 13, 5);
    let receipt = odd.deposit(true, 3, 0, 100, 0, 10, 18).unwrap();
    assert_eq!((receipt.amount_a, receipt.amount_b, receipt.shares_minted), (3, 5, 1));
    assert_eq!(odd.withdraw(true, 0, 0, 10, 18, 1), Ok((1, 3)));
    assert_eq!(odd.get_rsrvs(), (9, 15));
    assert_eq!(odd.get_shares(), 5);
}

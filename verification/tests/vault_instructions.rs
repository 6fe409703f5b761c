use tidepool::clmm::errors::TidePoolError;
use tidepool::clmm::instructions::{add_liquidity, initialize_pool, initialize_tick_array, open_position, swap};
use tidepool::clmm::math::tick_math::{MAX_SQRT_PRICE, MIN_SQRT_PRICE};
use tidepool::clmm::state::{Pool, Position, TickArray};
use tidepool::vault::errors::VaultError;
use tidepool::vault::events::{VaultCompounded, VaultDeposited, VaultRebalanced, VaultWithdrawn};
use tidepool::vault::instructions::compound::{self, Compound};
use tidepool::vault::instructions::deposit::{self, VaultDeposit};
use tidepool::vault::instructions::initialize_vault;
use tidepool::vault::instructions::rebalance::{self, Rebalance};
use tidepool::vault::instructions::withdraw::{self, VaultWithdraw};
use tidepool::vault::state::Vault;

const VAULT_KEY: [u8; 32] = [9u8; 32];
const AUTHORITY: [u8; 32] = [1u8; 32];
const POOL: [u8; 32] = [2u8; 32];
const SHARE_MINT: [u8; 32] = [3u8; 32];
const TOKEN_A: [u8; 32] = [4u8; 32];
const TOKEN_B: [u8; 32] = [5u8; 32];
const USER: [u8; 32] = [6u8; 32];

fn new_vault() -> Vault {
    let (vault, _) =
        initialize_vault::handler(VAULT_KEY, AUTHORITY, POOL, SHARE_MINT, TOKEN_A, TOKEN_B, 1000, 10, 1000, 200, 42, 254)
            .unwrap();
    vault
}

const POSITION_KEY: [u8; 32] = [10u8; 32];
const LIQUIDITY: u128 = 10_000_000;

/// A pool at price 1.0 where the vault's position holds `LIQUIDITY` over [-100, 100).
fn vault_position() -> (Pool, Position, TickArray, TickArray) {
    let mut pool = initialize_pool::handler(POOL, AUTHORITY, TOKEN_A, TOKEN_B, [11u8; 32], [12u8; 32], 10, 1u128 << 64, 3000, 255)
        .unwrap()
        .0;
    let mut lower = initialize_tick_array::handler(&pool, POOL, -640, 1).unwrap();
    let mut upper = initialize_tick_array::handler(&pool, POOL, 0, 1).unwrap();
    let mut position = open_position::handler(&pool, POOL, VAULT_KEY, [13u8; 32], -100, 100, 2).unwrap();
    add_liquidity::handler(&mut pool, &mut position, &mut lower, &mut upper, LIQUIDITY, u64::MAX, u64::MAX, POOL, POSITION_KEY, VAULT_KEY)
        .unwrap();
    (pool, position, lower, upper)
}

fn deposit_accounts() -> VaultDeposit {
    VaultDeposit { share_mint: SHARE_MINT, token_vault_a: TOKEN_A, token_vault_b: TOKEN_B, depositor: USER }
}

fn withdraw_accounts() -> VaultWithdraw {
    VaultWithdraw { share_mint: SHARE_MINT, token_vault_a: TOKEN_A, token_vault_b: TOKEN_B, withdrawer: USER }
}

#[test]
fn initialize_vault_sets_up_an_empty_vault() {
    let (vault, event) =
        initialize_vault::handler(VAULT_KEY, AUTHORITY, POOL, SHARE_MINT, TOKEN_A, TOKEN_B, 1000, 10, 1000, 200, 42, 254)
            .unwrap();
    assert_eq!(vault.authority, AUTHORITY);
    assert_eq!(vault.keeper, AUTHORITY);
    assert_eq!(vault.pool, POOL);
    assert_eq!(vault.active_position, [0u8; 32]);
    assert!(!vault.has_active_position);
    assert_eq!(vault.max_slippage_bps, 100);
    assert_eq!(vault.total_shares, 0);
    assert_eq!(vault.last_rebalance_slot, 42);
    assert_eq!(vault.last_compound_slot, 42);
    assert_eq!(vault.bump, 254);
    assert_eq!(event.vault, VAULT_KEY);
    assert_eq!(event.keeper, AUTHORITY);
    assert_eq!(event.tick_range_multiplier, 10);
}

#[test]
fn initialize_vault_refuses_fees_above_their_caps() {
    let r = |mult: u8, perf: u16, mgmt: u16| {
        initialize_vault::handler(VAULT_KEY, AUTHORITY, POOL, SHARE_MINT, TOKEN_A, TOKEN_B, 1000, mult, perf, mgmt, 0, 0)
            .map(|(v, _)| v.performance_fee_bps)
    };
    assert_eq!(r(10, 3001, 0), Err(VaultError::InvalidFeeConfig));
    assert_eq!(r(10, 0, 501), Err(VaultError::InvalidFeeConfig));
    assert_eq!(r(0, 0, 0), Err(VaultError::InvalidFeeConfig));
    assert_eq!(r(101, 0, 0), Err(VaultError::InvalidFeeConfig));
    assert_eq!(r(100, 3000, 500), Ok(3000));
    assert_eq!(r(1, 0, 0), Ok(0));
}

#[test]
fn first_deposit_mints_the_square_root() {
    let mut vault = new_vault();
    let event = deposit::handler(&mut vault, VAULT_KEY, USER, 1000, 4000).unwrap();
    assert_eq!(
        event,
        VaultDeposited {
            vault: VAULT_KEY,
            user: USER,
            amount_a: 1000,
            amount_b: 4000,
            shares_minted: 2000,
            // (1000 + 4000) * 1e6 / 2000
            share_price: 2_500_000,
        }
    );
    assert_eq!((vault.total_shares, vault.total_value_a, vault.total_value_b), (2000, 1000, 4000));
}

#[test]
fn deposit_errors() {
    let mut vault = new_vault();
    assert_eq!(deposit::handler(&mut vault, VAULT_KEY, USER, 0, 0), Err(VaultError::ZeroDeposit));
    let mut paused = new_vault();
    paused.paused = true;
    assert_eq!(deposit::handler(&mut paused, VAULT_KEY, USER, 1, 1), Err(VaultError::VaultPaused));
    // the vault holds shares and no token B: a deposit mints nothing
    let mut one_sided = new_vault();
    one_sided.total_shares = 10;
    one_sided.total_value_a = 10;
    let before = one_sided;
    assert_eq!(deposit::handler(&mut one_sided, VAULT_KEY, USER, 5, 5), Err(VaultError::ZeroDeposit));
    assert_eq!(one_sided, before);
    // totals would overflow
    let mut full = new_vault();
    full.total_shares = u64::MAX - 5;
    full.total_value_a = 1;
    full.total_value_b = 1;
    let before = full;
    assert_eq!(deposit::handler(&mut full, VAULT_KEY, USER, 1, 1), Err(VaultError::MathOverflow));
    assert_eq!(full, before);
}

#[test]
fn withdraw_pays_out_the_pro_rata_part() {
    let mut vault = new_vault();
    vault.total_shares = 1000;
    vault.total_value_a = 500;
    vault.total_value_b = 800;
    let event = withdraw::handler(&mut vault, VAULT_KEY, USER, 100, 100).unwrap();
    assert_eq!(
        event,
        VaultWithdrawn { vault: VAULT_KEY, user: USER, shares_burned: 100, amount_a: 50, amount_b: 80 }
    );
    assert_eq!((vault.total_shares, vault.total_value_a, vault.total_value_b), (900, 450, 720));
}

#[test]
fn withdraw_errors() {
    let mut vault = new_vault();
    assert_eq!(withdraw::handler(&mut vault, VAULT_KEY, USER, 0, 10), Err(VaultError::InsufficientShares));
    assert_eq!(withdraw::handler(&mut vault, VAULT_KEY, USER, 5, 10), Err(VaultError::NoShares));
    vault.total_shares = 100;
    vault.total_value_a = 100;
    vault.total_value_b = 100;
    assert_eq!(withdraw::handler(&mut vault, VAULT_KEY, USER, 50, 10), Err(VaultError::InsufficientShares));
    // more shares than the vault counts
    let before = vault;
    assert_eq!(withdraw::handler(&mut vault, VAULT_KEY, USER, 200, 200), Err(VaultError::MathOverflow));
    assert_eq!(vault, before);
}

#[test]
fn deposit_then_withdraw_returns_at_most_the_deposit() {
    let mut vault = new_vault();
    deposit::handler(&mut vault, VAULT_KEY, [7u8; 32], 777, 333).unwrap();
    let before = vault;
    let minted = deposit::handler(&mut vault, VAULT_KEY, USER, 100, 100).unwrap().shares_minted;
    let out = withdraw::handler(&mut vault, VAULT_KEY, USER, minted, minted).unwrap();
    assert!(out.amount_a <= 100 && out.amount_b <= 100);
    assert_eq!(vault.total_shares, before.total_shares);
    assert!(vault.total_value_a >= before.total_value_a);
    assert!(vault.total_value_b >= before.total_value_b);
}

#[test]
fn first_depositor_gets_everything_back() {
    let mut vault = new_vault();
    let minted = deposit::handler(&mut vault, VAULT_KEY, USER, 1234, 5678).unwrap().shares_minted;
    let out = withdraw::handler(&mut vault, VAULT_KEY, USER, minted, minted).unwrap();
    assert_eq!((out.amount_a, out.amount_b), (1234, 5678));
    assert_eq!((vault.total_shares, vault.total_value_a, vault.total_value_b), (0, 0, 0));
}

fn pool_array(pool: &Pool, start: i32) -> TickArray {
    initialize_tick_array::handler(pool, POOL, start, 1).unwrap()
}

#[test]
fn rebalance_moves_the_range_and_counts() {
    let mut vault = new_vault();
    vault.active_tick_lower = -100;
    vault.active_tick_upper = 100;
    let (mut pool, mut position, mut lower, mut upper) = vault_position();
    let mut new_lower = pool_array(&pool, -1280);
    let mut new_upper = pool_array(&pool, 1280);
    assert_eq!(pool.liquidity, LIQUIDITY);
    let out = rebalance::handler(
        &mut vault, VAULT_KEY, &mut pool, &mut position, &mut lower, &mut upper, &mut new_lower, &mut new_upper, POOL, [14u8; 32], 3,
        -1280, 1280, 77,
    )
    .unwrap();
    assert_eq!(
        out.event,
        VaultRebalanced {
            vault: VAULT_KEY,
            old_tick_lower: -100,
            old_tick_upper: 100,
            new_tick_lower: -1280,
            new_tick_upper: 1280,
            rebalance_count: 1,
        }
    );
    assert_eq!((vault.active_tick_lower, vault.active_tick_upper), (-1280, 1280));
    assert_eq!(vault.last_rebalance_slot, 77);
    assert_eq!(vault.rebalance_count, 1);
    // the old position's liquidity left the pool
    assert_eq!(position.liquidity, 0);
    assert_eq!(lower.get_tick(-100, 10).unwrap().liquidity_gross, 0);
    assert_eq!(upper.get_tick(100, 10).unwrap().liquidity_gross, 0);
    // and what it paid out went into a position over the new range
    let np = out.new_position;
    assert_eq!((np.tick_lower_index, np.tick_upper_index, np.owner, np.position_mint), (-1280, 1280, VAULT_KEY, [14u8; 32]));
    assert!(np.liquidity > 0);
    assert_eq!(pool.liquidity, np.liquidity);
    assert_eq!(new_lower.get_tick(-1280, 10).unwrap().liquidity_gross, np.liquidity);
    assert_eq!(new_upper.get_tick(1280, 10).unwrap().liquidity_net, -(np.liquidity as i128));
    assert!(out.amount_a_out > 0 && out.amount_b_out > 0);
    assert!(out.amount_a_in <= out.amount_a_out && out.amount_b_in <= out.amount_b_out);
    assert!(out.amount_a_in > 0 && out.amount_b_in > 0);

    // an empty position leaves the pool as it is, and opens an empty one
    let pool_before = pool;
    let mut l2 = pool_array(&pool, -640);
    let mut u2 = pool_array(&pool, 640);
    let out2 = rebalance::handler(
        &mut vault, VAULT_KEY, &mut pool, &mut position, &mut lower, &mut upper, &mut l2, &mut u2, POOL, [15u8; 32], 4, 0, 640, 78,
    )
    .unwrap();
    assert_eq!(pool, pool_before);
    assert_eq!(out2.new_position.liquidity, 0);
    assert_eq!((out2.amount_a_out, out2.amount_b_out, out2.amount_a_in, out2.amount_b_in), (0, 0, 0, 0));
    assert_eq!(vault.rebalance_count, 2);
}

#[test]
fn rebalance_errors() {
    let mut vault = new_vault();
    let (mut pool, mut position, mut lower, mut upper) = vault_position();
    let mut new_lower = pool_array(&pool, -1280);
    let mut new_upper = pool_array(&pool, 1280);
    assert_eq!(
        rebalance::handler(&mut vault, VAULT_KEY, &mut pool, &mut position, &mut lower, &mut upper, &mut new_lower, &mut new_upper, POOL, [14u8; 32], 3, 10, 10, 0)
            .map(|o| o.event),
        Err(VaultError::InvalidTickRange)
    );
    vault.rebalance_count = u32::MAX;
    let before = vault;
    assert_eq!(
        rebalance::handler(&mut vault, VAULT_KEY, &mut pool, &mut position, &mut lower, &mut upper, &mut new_lower, &mut new_upper, POOL, [14u8; 32], 3, -1280, 1280, 0)
            .map(|o| o.event),
        Err(VaultError::MathOverflow)
    );
    assert_eq!(vault, before);
    assert_eq!(position.liquidity, LIQUIDITY);
    vault.rebalance_count = 0;
    // the new range must be one the pool accepts
    assert_eq!(
        rebalance::handler(&mut vault, VAULT_KEY, &mut pool, &mut position, &mut lower, &mut upper, &mut new_lower, &mut new_upper, POOL, [14u8; 32], 3, -1275, 1280, 0)
            .map(|o| o.event),
        Err(VaultError::Clmm(TidePoolError::TickNotAligned))
    );
    // the pool refuses the removal when the position's tick array is not the one given
    let mut wrong_upper = pool_array(&pool, 640);
    assert_eq!(
        rebalance::handler(&mut vault, VAULT_KEY, &mut pool, &mut position, &mut lower, &mut wrong_upper, &mut new_lower, &mut new_upper, POOL, [14u8; 32], 3, -1280, 1280, 0)
            .map(|o| o.event),
        Err(VaultError::Clmm(TidePoolError::InvalidTickArray))
    );
    // and the addition when the new range's tick arrays are not the ones given
    let pool_before = pool;
    let mut wrong_new_upper = pool_array(&pool, 640);
    assert_eq!(
        rebalance::handler(&mut vault, VAULT_KEY, &mut pool, &mut position, &mut lower, &mut upper, &mut new_lower, &mut wrong_new_upper, POOL, [14u8; 32], 3, -1280, 1280, 0)
            .map(|o| o.event),
        Err(VaultError::Clmm(TidePoolError::InvalidTickArray))
    );
    assert_eq!(pool, pool_before);
    assert_eq!(vault.rebalance_count, 0);
    assert_eq!(position.liquidity, LIQUIDITY);
    assert_eq!(upper.get_tick(100, 10).unwrap().liquidity_gross, LIQUIDITY);
    vault.paused = true;
    assert_eq!(
        rebalance::handler(&mut vault, VAULT_KEY, &mut pool, &mut position, &mut lower, &mut upper, &mut new_lower, &mut new_upper, POOL, [14u8; 32], 3, 0, 10, 0)
            .map(|o| o.event),
        Err(VaultError::VaultPaused)
    );
}

#[test]
fn compound_splits_fees_between_fee_and_vault() {
    let mut vault = new_vault();
    vault.has_active_position = true;
    vault.total_value_a = 10;
    let event = compound::fold_collected_fees(&mut vault, VAULT_KEY, 100, 50, 1100, 40, 99).unwrap();
    assert_eq!(
        event,
        VaultCompounded { vault: VAULT_KEY, fees_a: 1000, fees_b: 0, performance_fee_a: 100, performance_fee_b: 0 }
    );
    assert_eq!(vault.total_value_a, 10 + 900);
    assert_eq!(vault.total_value_b, 0);
    assert_eq!(vault.total_fees_earned_a, 1000);
    assert_eq!(vault.last_compound_slot, 99);
}

#[test]
fn compound_collects_and_reinvests_the_position_fees() {
    let mut vault = new_vault();
    vault.has_active_position = true;
    let (mut pool, mut position, mut lower, mut upper) = vault_position();
    // trades both ways earn the position fees in both tokens
    let mut arrays = [upper.clone(), pool_array(&pool, 640), pool_array(&pool, 1280)];
    swap::handler(&mut pool, &mut arrays, 10_000, 0, MAX_SQRT_PRICE, true, false, POOL, USER).unwrap();
    let mut arrays = [upper.clone(), pool_array(&pool, -640), pool_array(&pool, -1280)];
    swap::handler(&mut pool, &mut arrays, 10_000, 0, MIN_SQRT_PRICE, true, true, POOL, USER).unwrap();
    let (event, re) =
        compound::handler(&mut vault, VAULT_KEY, &mut pool, &mut position, &mut lower, &mut upper, POOL, POSITION_KEY, 500, 700, 99).unwrap();
    assert!(event.fees_a > 0 && event.fees_b > 0);
    assert_eq!(event.performance_fee_a, event.fees_a * 1000 / 10_000);
    assert_eq!(event.performance_fee_b, event.fees_b * 1000 / 10_000);
    let rest_a = event.fees_a - event.performance_fee_a;
    let rest_b = event.fees_b - event.performance_fee_b;
    assert_eq!((vault.total_value_a, vault.total_value_b), (rest_a, rest_b));
    assert_eq!(vault.total_fees_earned_b, event.fees_b);
    assert_eq!(position.fees_owed_b, 0);
    // what is left after the performance fee went back into the position
    assert!(re.liquidity > 0);
    assert!(re.amount_a <= rest_a && re.amount_b <= rest_b);
    assert_eq!(position.liquidity, LIQUIDITY + re.liquidity);
    assert_eq!(pool.liquidity, LIQUIDITY + re.liquidity);
    assert_eq!(lower.get_tick(-100, 10).unwrap().liquidity_gross, LIQUIDITY + re.liquidity);
    // nothing left to collect: the pool refuses, and nothing changes
    let before = (vault, pool, position);
    assert_eq!(
        compound::handler(&mut vault, VAULT_KEY, &mut pool, &mut position, &mut lower, &mut upper, POOL, POSITION_KEY, 500, 700, 100)
            .map(|(e, _)| e),
        Err(VaultError::Clmm(TidePoolError::NoFeesToCollect))
    );
    assert_eq!((vault, pool, position), before);
}

#[test]
fn compound_errors() {
    let mut vault = new_vault();
    let (mut pool, mut position, mut lower, mut upper) = vault_position();
    assert_eq!(
        compound::handler(&mut vault, VAULT_KEY, &mut pool, &mut position, &mut lower, &mut upper, POOL, POSITION_KEY, 0, 0, 0).map(|(e, _)| e),
        Err(VaultError::NoActivePosition)
    );
    vault.paused = true;
    assert_eq!(
        compound::handler(&mut vault, VAULT_KEY, &mut pool, &mut position, &mut lower, &mut upper, POOL, POSITION_KEY, 0, 0, 0).map(|(e, _)| e),
        Err(VaultError::VaultPaused)
    );
}

#[test]
fn account_checks_guard_the_vault() {
    let vault = new_vault();
    assert_eq!(deposit_accounts().validate(&vault), Ok(()));
    assert_eq!(withdraw_accounts().validate(&vault), Ok(()));
    let mut wrong = deposit_accounts();
    wrong.share_mint = [0u8; 32];
    assert_eq!(wrong.validate(&vault), Err(VaultError::UnauthorizedAuthority));
    let mut wrong = withdraw_accounts();
    wrong.token_vault_b = [0u8; 32];
    assert_eq!(wrong.validate(&vault), Err(VaultError::UnauthorizedAuthority));

    let keeper = Rebalance { pool: POOL, token_vault_a: TOKEN_A, token_vault_b: TOKEN_B, keeper: AUTHORITY };
    assert_eq!(keeper.validate(&vault), Ok(()));
    let stranger = Rebalance { keeper: USER, ..keeper };
    assert_eq!(stranger.validate(&vault), Err(VaultError::UnauthorizedKeeper));
    let other_pool = Rebalance { pool: [0u8; 32], ..keeper };
    assert_eq!(other_pool.validate(&vault), Err(VaultError::UnauthorizedAuthority));

    let compounder = Compound { pool: POOL, token_vault_a: TOKEN_A, token_vault_b: TOKEN_B, keeper: AUTHORITY };
    assert_eq!(compounder.validate(&vault), Ok(()));
    assert_eq!(Compound { keeper: USER, ..compounder }.validate(&vault), Err(VaultError::UnauthorizedKeeper));
}

#[test]
fn entry_points_check_accounts_first() {
    let mut vault = new_vault();
    let mut wrong = deposit_accounts();
    wrong.token_vault_a = [0u8; 32];
    assert_eq!(
        tidepool::vault::deposit(&wrong, &mut vault, VAULT_KEY, 10, 10),
        Err(VaultError::UnauthorizedAuthority)
    );
    let minted = tidepool::vault::deposit(&deposit_accounts(), &mut vault, VAULT_KEY, 10, 10).unwrap().shares_minted;
    assert_eq!(minted, 10);
    let stranger = Rebalance { pool: POOL, token_vault_a: TOKEN_A, token_vault_b: TOKEN_B, keeper: USER };
    let before = vault;
    let (mut pool, mut position, mut lower, mut upper) = vault_position();
    let mut l2 = pool_array(&pool, -1280);
    let mut u2 = pool_array(&pool, 1280);
    assert_eq!(
        tidepool::vault::rebalance(
            &stranger, &mut vault, VAULT_KEY, &mut pool, &mut position, &mut lower, &mut upper, &mut l2, &mut u2, POOL, [14u8; 32], 3, 0, 10, 5,
        )
        .map(|o| o.event),
        Err(VaultError::UnauthorizedKeeper)
    );
    assert_eq!(position.liquidity, LIQUIDITY);
    assert_eq!(vault, before);
    let out = tidepool::vault::withdraw(&withdraw_accounts(), &mut vault, VAULT_KEY, 10, 10).unwrap();
    assert_eq!((out.amount_a, out.amount_b), (10, 10));
}

#[test]
fn share_value_never_drops_for_remaining_holders() {
    let mut vault = new_vault();
    vault.total_shares = 3;
    vault.total_value_a = 10;
    vault.total_value_b = 20;
    let before = vault;
    // one share of three pays 3 of A and 6 of B, rounded down
    let out = withdraw::handler(&mut vault, VAULT_KEY, USER, 1, 1).unwrap();
    assert_eq!((out.amount_a, out.amount_b), (3, 6));
    assert!(vault.total_value_a as u128 * before.total_shares as u128 >= before.total_value_a as u128 * vault.total_shares as u128);
    assert!(vault.total_value_b as u128 * before.total_shares as u128 >= before.total_value_b as u128 * vault.total_shares as u128);
    // an uneven deposit mints by the scarcer side
    let before = vault;
    let minted = deposit::handler(&mut vault, VAULT_KEY, USER, 7, 10).unwrap().shares_minted;
    // A gives 7 * 2 / 7 = 2 shares, B gives 10 * 2 / 14 = 1
    assert_eq!(minted, 1);
    assert!(vault.total_value_a as u128 * before.total_shares as u128 >= before.total_value_a as u128 * vault.total_shares as u128);
}

use tidepool::clmm::errors::TidePoolError;
use tidepool::clmm::events::{PoolInitialized, ProtocolFeesCollected};
use tidepool::clmm::instructions::add_liquidity::{self, ModifyLiquidity};
use tidepool::clmm::instructions::collect_fees::{self, CollectFees};
use tidepool::clmm::instructions::collect_protocol_fees::{self, CollectProtocolFees};
use tidepool::clmm::instructions::swap::{self, Swap};
use tidepool::clmm::instructions::{initialize_pool, initialize_tick_array, open_position, remove_liquidity};
use tidepool::clmm::math::sqrt_price_math::{get_amount_a_delta, get_amount_b_delta};
use tidepool::clmm::math::tick_math::{tick_to_sqrt_price, MAX_SQRT_PRICE, MIN_SQRT_PRICE};
use tidepool::clmm::state::{Pool, Position, TickArray};

const ONE_Q64: u128 = 1u128 << 64;
const AUTHORITY: [u8; 32] = [1u8; 32];
const MINT_A: [u8; 32] = [2u8; 32];
const MINT_B: [u8; 32] = [3u8; 32];
const VAULT_A: [u8; 32] = [4u8; 32];
const VAULT_B: [u8; 32] = [5u8; 32];
const POOL_KEY: [u8; 32] = [6u8; 32];
const OWNER: [u8; 32] = [7u8; 32];
const LIQUIDITY: u128 = 10_000_000;
const POSITION_KEY: [u8; 32] = [10u8; 32];

fn new_pool() -> Pool {
    initialize_pool::handler(POOL_KEY, AUTHORITY, MINT_A, MINT_B, VAULT_A, VAULT_B, 10, ONE_Q64, 3000, 255).unwrap().0
}

fn array_at(pool: &Pool, start: i32) -> TickArray {
    initialize_tick_array::handler(pool, POOL_KEY, start, 1).unwrap()
}

/// A pool at price 1.0 with one position over [-100, 100) holding `LIQUIDITY`.
fn funded_pool() -> (Pool, Position, TickArray, TickArray) {
    let mut pool = new_pool();
    let mut lower = array_at(&pool, -640);
    let mut upper = array_at(&pool, 0);
    let mut position = open_position::handler(&pool, POOL_KEY, OWNER, [8u8; 32], -100, 100, 2).unwrap();
    add_liquidity::handler(&mut pool, &mut position, &mut lower, &mut upper, LIQUIDITY, u64::MAX, u64::MAX, POOL_KEY, POSITION_KEY, OWNER).unwrap();
    (pool, position, lower, upper)
}

#[test]
fn initialize_pool_checks_its_parameters() {
    let pool = new_pool();
    assert_eq!(pool.tick_current_index, 0);
    assert_eq!(pool.sqrt_price, ONE_Q64);
    assert_eq!(pool.protocol_fee_rate, 1000);
    assert_eq!(pool.liquidity, 0);
    let (_, event) =
        initialize_pool::handler(POOL_KEY, AUTHORITY, MINT_A, MINT_B, VAULT_A, VAULT_B, 10, ONE_Q64, 3000, 255).unwrap();
    assert_eq!(
        event,
        PoolInitialized {
            pool: POOL_KEY,
            token_mint_a: MINT_A,
            token_mint_b: MINT_B,
            tick_spacing: 10,
            initial_sqrt_price: ONE_Q64,
            fee_rate: 3000,
        }
    );
    let init = |spacing: u16, price: u128, fee: u16| {
        initialize_pool::handler(POOL_KEY, AUTHORITY, MINT_A, MINT_B, VAULT_A, VAULT_B, spacing, price, fee, 0)
            .map(|(p, _)| p.fee_rate)
    };
    assert_eq!(init(0, ONE_Q64, 3000), Err(TidePoolError::InvalidTickSpacing));
    assert_eq!(init(201, ONE_Q64, 3000), Err(TidePoolError::InvalidTickSpacing));
    assert_eq!(init(10, MAX_SQRT_PRICE + 1, 3000), Err(TidePoolError::SqrtPriceOutOfBounds));
    assert_eq!(init(10, ONE_Q64, 0), Err(TidePoolError::InvalidFeeRate));
    assert_eq!(init(10, ONE_Q64, 10_001), Err(TidePoolError::InvalidFeeRate));
    assert_eq!(init(200, ONE_Q64, 10_000), Ok(10_000));
}

#[test]
fn initialize_tick_array_needs_an_aligned_start() {
    let pool = new_pool();
    assert_eq!(initialize_tick_array::handler(&pool, POOL_KEY, 10, 0).map(|t| t.start_tick_index), Err(TidePoolError::TickNotAligned));
    let ta = array_at(&pool, -1280);
    assert_eq!(ta.start_tick_index, -1280);
    assert_eq!(ta.ticks.len(), 64);
    assert_eq!(ta.pool, POOL_KEY);
}

#[test]
fn open_position_checks_its_range() {
    let pool = new_pool();
    let open = |lower: i32, upper: i32| open_position::handler(&pool, POOL_KEY, OWNER, [8u8; 32], lower, upper, 0).map(|p| p.liquidity);
    assert_eq!(open(100, 100), Err(TidePoolError::InvalidTickRange));
    assert_eq!(open(-443_640, 0), Err(TidePoolError::TickOutOfRange));
    assert_eq!(open(-15, 10), Err(TidePoolError::TickNotAligned));
    assert_eq!(open(-10, 10), Ok(0));
}

#[test]
fn add_liquidity_charges_both_tokens_in_range() {
    let (pool, position, lower, upper) = funded_pool();
    let p_lower = tick_to_sqrt_price(-100).unwrap();
    let p_upper = tick_to_sqrt_price(100).unwrap();
    // the amounts the position needed at price 1.0, rounded up
    let a = get_amount_a_delta(ONE_Q64, p_upper, LIQUIDITY, true).unwrap();
    let b = get_amount_b_delta(p_lower, ONE_Q64, LIQUIDITY, true).unwrap();
    assert!(b > 0);
    assert_eq!(position.liquidity, LIQUIDITY);
    assert_eq!(pool.liquidity, LIQUIDITY);
    assert_eq!(pool.total_liquidity_provided, LIQUIDITY);
    let t_lower = lower.get_tick(-100, 10).unwrap();
    let t_upper = upper.get_tick(100, 10).unwrap();
    assert!(t_lower.initialized && t_upper.initialized);
    assert_eq!(t_lower.liquidity_net, LIQUIDITY as i128);
    assert_eq!(t_upper.liquidity_net, -(LIQUIDITY as i128));
    assert_eq!(t_lower.liquidity_gross, LIQUIDITY);

    // the same liquidity again costs the same and refuses a smaller budget
    let (mut pool2, mut position2, mut lower2, mut upper2) = (pool, position, lower.clone(), upper.clone());
    assert_eq!(
        add_liquidity::handler(&mut pool2, &mut position2, &mut lower2, &mut upper2, LIQUIDITY, u64::MAX, u64::MAX, POOL_KEY, POSITION_KEY, OWNER)
            .map(|e| (e.amount_a, e.amount_b)),
        Ok((a, b))
    );
    let (mut pool3, mut position3, mut lower3, mut upper3) = (pool, position, lower.clone(), upper.clone());
    assert_eq!(
        add_liquidity::handler(&mut pool3, &mut position3, &mut lower3, &mut upper3, LIQUIDITY, a, b - 1, POOL_KEY, POSITION_KEY, OWNER)
            .map(|e| e.amount_a),
        Err(TidePoolError::TokenMaxExceeded)
    );
    assert_eq!(pool3, pool);
    assert_eq!(position3, position);
}

#[test]
fn add_liquidity_errors() {
    let mut pool = new_pool();
    let mut lower = array_at(&pool, -640);
    let mut upper = array_at(&pool, 0);
    let mut position = open_position::handler(&pool, POOL_KEY, OWNER, [8u8; 32], -100, 100, 2).unwrap();
    assert_eq!(
        add_liquidity::handler(&mut pool, &mut position, &mut lower, &mut upper, 0, 1, 1, POOL_KEY, POSITION_KEY, OWNER).map(|e| e.amount_a),
        Err(TidePoolError::ZeroLiquidity)
    );
    pool.paused = true;
    assert_eq!(
        add_liquidity::handler(&mut pool, &mut position, &mut lower, &mut upper, 1, 1, 1, POOL_KEY, POSITION_KEY, OWNER).map(|e| e.amount_a),
        Err(TidePoolError::PoolPaused)
    );
    pool.paused = false;
    // the upper tick does not lie in the array given for it
    let mut wrong = array_at(&pool, 640);
    assert_eq!(
        add_liquidity::handler(&mut pool, &mut position, &mut lower, &mut wrong, 1, u64::MAX, u64::MAX, POOL_KEY, POSITION_KEY, OWNER).map(|e| e.amount_a),
        Err(TidePoolError::InvalidTickArray)
    );
}

#[test]
fn remove_liquidity_undoes_add_liquidity() {
    let (pool0, position0, lower0, upper0) = {
        let mut pool = new_pool();
        let lower = array_at(&pool, -640);
        let upper = array_at(&pool, 0);
        let position = open_position::handler(&pool, POOL_KEY, OWNER, [8u8; 32], -100, 100, 2).unwrap();
        pool.paused = false;
        (pool, position, lower, upper)
    };
    let (mut pool, mut position, mut lower, mut upper) = (pool0, position0, lower0.clone(), upper0.clone());
    let added =
        add_liquidity::handler(&mut pool, &mut position, &mut lower, &mut upper, LIQUIDITY, u64::MAX, u64::MAX, POOL_KEY, POSITION_KEY, OWNER).unwrap();
    let removed =
        remove_liquidity::handler(&mut pool, &mut position, &mut lower, &mut upper, LIQUIDITY, 0, 0, POOL_KEY, POSITION_KEY, OWNER).unwrap();
    let (a_in, b_in) = (added.amount_a, added.amount_b);
    let (a_out, b_out) = (removed.amount_a, removed.amount_b);
    assert_eq!((added.tick_lower, added.tick_upper, added.liquidity_delta), (-100, 100, LIQUIDITY));
    assert_eq!((removed.pool, removed.position, removed.owner), (POOL_KEY, POSITION_KEY, OWNER));
    assert!(a_out <= a_in && b_out <= b_in);
    assert_eq!(pool.liquidity, pool0.liquidity);
    assert_eq!(position.liquidity, 0);
    assert_eq!(lower.get_tick(-100, 10).unwrap().liquidity_net, 0);
    assert_eq!(lower.get_tick(-100, 10).unwrap().liquidity_gross, 0);
    assert_eq!(upper.get_tick(100, 10).unwrap().liquidity_gross, 0);
    // more than the position holds is refused
    assert_eq!(
        remove_liquidity::handler(&mut pool, &mut position, &mut lower, &mut upper, 1, 0, 0, POOL_KEY, POSITION_KEY, OWNER).map(|e| e.amount_a),
        Err(TidePoolError::ZeroLiquidity)
    );
}

#[test]
fn remove_liquidity_respects_minimums() {
    let (mut pool, mut position, mut lower, mut upper) = funded_pool();
    let before = (pool, position);
    assert_eq!(
        remove_liquidity::handler(&mut pool, &mut position, &mut lower, &mut upper, LIQUIDITY, u64::MAX, 0, POOL_KEY, POSITION_KEY, OWNER).map(|e| e.amount_a),
        Err(TidePoolError::TokenMinNotMet)
    );
    assert_eq!((pool, position), before);
}

#[test]
fn swap_exact_input_within_range_spends_everything() {
    let (mut pool, mut position, lower, upper) = funded_pool();
    let mut arrays = [upper.clone(), array_at(&pool, 640), array_at(&pool, 1280)];
    let before = pool;
    let outcome = swap::handler(&mut pool, &mut arrays, 10_000, 0, MAX_SQRT_PRICE, true, false, POOL_KEY, OWNER).unwrap();
    // the whole input is taken, fee included
    assert_eq!(outcome.amount_in, 10_000);
    assert_eq!(outcome.fee_amount, 30);
    assert!(pool.sqrt_price > before.sqrt_price);
    assert_eq!((outcome.sqrt_price_after, outcome.tick_after), (pool.sqrt_price, pool.tick_current_index));
    assert!(!outcome.a_to_b && outcome.trader == OWNER && outcome.pool == POOL_KEY);
    assert!(pool.tick_current_index >= 0 && pool.tick_current_index < 100);
    assert_eq!(pool.liquidity, LIQUIDITY);
    // 10% of the fee goes to the protocol, the rest grows the fees of the liquidity
    assert_eq!(pool.protocol_fees_owed_b, 3);
    assert_eq!(pool.fee_growth_global_b, (27u128 << 64) / LIQUIDITY);
    assert_eq!(pool.fee_growth_global_a, 0);

    // the position's owner collects its share of the fee once
    let collected = collect_fees::handler(&pool, &mut position, &lower, &upper, POOL_KEY, POSITION_KEY, OWNER).unwrap();
    let (fees_a, fees_b) = (collected.amount_a, collected.amount_b);
    assert_eq!(fees_a, 0);
    assert!(fees_b > 0 && fees_b <= 27);
    assert_eq!(position.fees_owed_b, 0);
    assert_eq!(
        collect_fees::handler(&pool, &mut position, &lower, &upper, POOL_KEY, POSITION_KEY, OWNER).map(|e| e.amount_a),
        Err(TidePoolError::NoFeesToCollect)
    );

    // and the authority collects the protocol's part once
    assert_eq!(
        collect_protocol_fees::handler(&mut pool, POOL_KEY),
        Ok(ProtocolFeesCollected { pool: POOL_KEY, amount_a: 0, amount_b: 3 })
    );
    assert_eq!(collect_protocol_fees::handler(&mut pool, POOL_KEY), Err(TidePoolError::NoFeesToCollect));
}

#[test]
fn swap_errors() {
    let (mut pool, _, _, upper) = funded_pool();
    let mut arrays = [upper.clone(), array_at(&pool, 640), array_at(&pool, 1280)];
    let before = pool;
    assert_eq!(swap::handler(&mut pool, &mut arrays, 0, 0, MAX_SQRT_PRICE, true, false, POOL_KEY, OWNER).map(|o| o.amount_in), Err(TidePoolError::ZeroSwapAmount));
    // a limit on the wrong side of the price
    assert_eq!(swap::handler(&mut pool, &mut arrays, 10, 0, ONE_Q64, true, false, POOL_KEY, OWNER).map(|o| o.amount_in), Err(TidePoolError::SqrtPriceLimitReached));
    // asking for more output than the swap gives
    assert_eq!(
        swap::handler(&mut pool, &mut arrays, 10_000, u64::MAX, MAX_SQRT_PRICE, true, false, POOL_KEY, OWNER).map(|o| o.amount_in),
        Err(TidePoolError::SlippageExceeded)
    );
    assert_eq!(pool, before);
    pool.paused = true;
    assert_eq!(swap::handler(&mut pool, &mut arrays, 10, 0, MAX_SQRT_PRICE, true, false, POOL_KEY, OWNER).map(|o| o.amount_in), Err(TidePoolError::PoolPaused));
}

#[test]
fn account_checks_guard_positions_and_fees() {
    let (pool, position, lower, upper) = funded_pool();
    let modify = ModifyLiquidity {
        pool: POOL_KEY,
        token_vault_a: VAULT_A,
        token_vault_b: VAULT_B,
        token_owner_account_a_owner: OWNER,
        token_owner_account_b_owner: OWNER,
        owner: OWNER,
    };
    assert_eq!(modify.validate(&pool, &position, &lower, &upper), Ok(()));
    let thief = ModifyLiquidity { owner: [0u8; 32], ..modify };
    assert_eq!(thief.validate(&pool, &position, &lower, &upper), Err(TidePoolError::Unauthorized));
    let other_pool = ModifyLiquidity { pool: [0u8; 32], ..modify };
    assert_eq!(other_pool.validate(&pool, &position, &lower, &upper), Err(TidePoolError::InvalidTickArray));
    let foreign_tokens = ModifyLiquidity { token_owner_account_b_owner: [0u8; 32], ..modify };
    assert_eq!(foreign_tokens.validate(&pool, &position, &lower, &upper), Err(TidePoolError::Unauthorized));

    let collect = CollectFees { pool: POOL_KEY, token_vault_a: VAULT_A, token_vault_b: VAULT_B, owner: OWNER };
    assert_eq!(collect.validate(&pool, &position, &lower, &upper), Ok(()));
    assert_eq!(
        CollectFees { owner: AUTHORITY, ..collect }.validate(&pool, &position, &lower, &upper),
        Err(TidePoolError::Unauthorized)
    );

    let protocol = CollectProtocolFees { token_vault_a: VAULT_A, token_vault_b: VAULT_B, authority: AUTHORITY };
    assert_eq!(protocol.validate(&pool), Ok(()));
    assert_eq!(CollectProtocolFees { authority: OWNER, ..protocol }.validate(&pool), Err(TidePoolError::Unauthorized));

    let mut arrays = [upper.clone(), array_at(&pool, 640), array_at(&pool, 1280)];
    let swap = Swap { pool: POOL_KEY, token_vault_a: VAULT_A, token_vault_b: VAULT_B, trader: OWNER };
    assert_eq!(swap.validate(&pool, &arrays), Ok(()));
    assert_eq!(Swap { token_vault_a: VAULT_B, ..swap }.validate(&pool, &arrays), Err(TidePoolError::Unauthorized));
    assert_eq!(Swap { pool: [0u8; 32], ..swap }.validate(&pool, &arrays), Err(TidePoolError::InvalidTickArray));
}

#[test]
fn position_fee_bookkeeping() {
    let mut p = Position {
        pool: POOL_KEY,
        owner: OWNER,
        position_mint: [0u8; 32],
        tick_lower_index: -10,
        tick_upper_index: 10,
        liquidity: 2,
        fee_growth_inside_last_a: 0,
        fee_growth_inside_last_b: 0,
        fees_owed_a: 0,
        fees_owed_b: 0,
        bump: 0,
    };
    assert!(!p.is_empty());
    // growth of 3.0 per unit on A over 2 units of liquidity earns 6
    p.update_fees(3u128 << 64, 0);
    assert_eq!(p.fees_owed_a, 6);
    assert_eq!(p.fee_growth_inside_last_a, 3u128 << 64);
    // growth that wrapped around still counts as growth
    p.fee_growth_inside_last_b = u128::MAX;
    p.update_fees(3u128 << 64, (1u128 << 64) - 1);
    assert_eq!(p.fees_owed_b, 2);
    p.liquidity = 0;
    p.fees_owed_a = 0;
    p.fees_owed_b = 0;
    assert!(p.is_empty());
}

#[test]
fn pool_price_range_check() {
    let pool = new_pool();
    assert!(pool.is_price_in_range(0, 10));
    assert!(pool.is_price_in_range(-10, 1));
    assert!(!pool.is_price_in_range(-10, 0));
    assert!(!pool.is_price_in_range(1, 10));
}

#[test]
fn swap_stops_at_the_price_limit() {
    let (mut pool, _, _, upper) = funded_pool();
    let mut arrays = [upper.clone(), array_at(&pool, 640), array_at(&pool, 1280)];
    let limit = ONE_Q64 + 1000;
    let event = swap::handler(&mut pool, &mut arrays, 10_000, 0, limit, true, false, POOL_KEY, OWNER).unwrap();
    assert_eq!(pool.sqrt_price, limit);
    assert_eq!(event.sqrt_price_after, limit);
    // reaching the limit took one unit of B; the rest of the input is not taken
    assert!(event.amount_in < 10_000);
}

#[test]
fn swap_a_for_b_lowers_the_price() {
    let (mut pool, _, lower, upper) = funded_pool();
    let mut arrays = [upper.clone(), lower.clone(), array_at(&pool, -1280)];
    let before = pool;
    let event = swap::handler(&mut pool, &mut arrays, 10_000, 1, MIN_SQRT_PRICE, true, true, POOL_KEY, OWNER).unwrap();
    assert!(pool.sqrt_price < before.sqrt_price);
    assert!(pool.sqrt_price >= MIN_SQRT_PRICE);
    assert_eq!(event.amount_in, 10_000);
    assert_eq!(event.fee_amount, 30);
    assert!(event.amount_out > 0 && event.amount_out < 10_000);
    assert_eq!(pool.protocol_fees_owed_a, 3);
    assert_eq!(pool.fee_growth_global_a, (27u128 << 64) / LIQUIDITY);
}

#[test]
fn positions_out_of_range_earn_no_fees() {
    let (mut pool, mut inside, lower, upper) = funded_pool();
    // a second position over [640, 1280), above the price
    let mut far_lower = array_at(&pool, 640);
    let mut far_upper = array_at(&pool, 1280);
    let mut outside = open_position::handler(&pool, POOL_KEY, OWNER, [9u8; 32], 640, 1280, 3).unwrap();
    add_liquidity::handler(&mut pool, &mut outside, &mut far_lower, &mut far_upper, LIQUIDITY, u64::MAX, u64::MAX, POOL_KEY, [11u8; 32], OWNER).unwrap();
    assert_eq!(pool.liquidity, LIQUIDITY);

    let mut arrays = [upper.clone(), far_lower.clone(), far_upper.clone()];
    swap::handler(&mut pool, &mut arrays, 10_000, 0, MAX_SQRT_PRICE, true, false, POOL_KEY, OWNER).unwrap();
    assert!(pool.fee_growth_global_b > 0);

    assert_eq!(
        collect_fees::handler(&pool, &mut outside, &far_lower, &far_upper, POOL_KEY, [11u8; 32], OWNER).map(|e| e.amount_b),
        Err(TidePoolError::NoFeesToCollect)
    );
    assert!(collect_fees::handler(&pool, &mut inside, &lower, &upper, POOL_KEY, POSITION_KEY, OWNER).unwrap().amount_b > 0);
}

#[test]
fn swap_crossing_a_tick_flips_its_outside_growth() {
    let (mut pool, _, lower, upper) = funded_pool();
    // the search from the current tick finds a tick at it when selling A
    let probe = [lower.clone(), upper.clone(), array_at(&pool, -1280)];
    assert_eq!(swap::find_next_initialized_tick(&probe, 0, -100, 10, true), Some(-100));
    assert_eq!(swap::find_next_initialized_tick(&probe, 0, -101, 10, true), None);
    assert_eq!(swap::find_next_initialized_tick(&probe, 1, 100, 10, false), None);
    assert_eq!(swap::find_next_initialized_tick(&probe, 1, 99, 10, false), Some(100));

    let mut arrays = [lower.clone(), upper.clone(), array_at(&pool, -1280)];
    let limit = tick_to_sqrt_price(-200).unwrap();
    let event = swap::handler(&mut pool, &mut arrays, 1_000_000, 0, limit, true, true, POOL_KEY, OWNER).unwrap();
    // the price went past -100, where the only position ends
    assert_eq!(pool.sqrt_price, limit);
    assert_eq!(pool.tick_current_index, -200);
    assert_eq!(event.tick_after, -200);
    assert_eq!(pool.liquidity, 0);
    // the fee was earned while the position's liquidity was active, and booked then
    assert!(pool.fee_growth_global_a > 0);
    assert!(pool.protocol_fees_owed_a > 0);
    // the crossed tick now holds the growth on its other side: global less outside
    let crossed = arrays[0].get_tick(-100, 10).unwrap();
    assert_eq!(crossed.fee_growth_outside_a, pool.fee_growth_global_a);
    assert_eq!(crossed.fee_growth_outside_b, 0);
    assert_eq!(crossed.liquidity_net, LIQUIDITY as i128);
    // the tick that was not crossed is left alone
    assert_eq!(arrays[1].get_tick(100, 10).unwrap().fee_growth_outside_a, upper.get_tick(100, 10).unwrap().fee_growth_outside_a);
}

#[test]
fn swap_exact_output_pays_out_what_is_asked() {
    let (mut pool, _, _, upper) = funded_pool();
    let mut arrays = [upper.clone(), array_at(&pool, 640), array_at(&pool, 1280)];
    let event = swap::handler(&mut pool, &mut arrays, 1_000, u64::MAX, MAX_SQRT_PRICE, false, false, POOL_KEY, OWNER).unwrap();
    assert_eq!(event.amount_out, 1_000);
    assert!(event.amount_in > 1_000);
    // the trader's cap on the input is respected
    let mut pool2 = funded_pool().0;
    assert_eq!(
        swap::handler(&mut pool2, &mut arrays, 1_000, 1_000, MAX_SQRT_PRICE, false, false, POOL_KEY, OWNER).map(|e| e.amount_in),
        Err(TidePoolError::SlippageExceeded)
    );
}

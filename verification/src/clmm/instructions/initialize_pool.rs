use vstd::prelude::*;

use crate::clmm::errors::TidePoolError;
use crate::clmm::events::PoolInitialized;
use crate::clmm::math::tick_math::{is_tick_of_price, sqrt_price_to_tick, MAX_SQRT_PRICE, MIN_SQRT_PRICE};
use crate::clmm::state::pool::Pool;

verus! {

/// Share of the fees the protocol keeps in a new pool, in basis points (10%).
pub const DEFAULT_PROTOCOL_FEE_RATE: u16 = 1000;

/// Creates a pool at `initial_sqrt_price`, with no liquidity and no fees yet.
pub fn handler(
    pool_key: [u8; 32],
    authority: [u8; 32],
    token_mint_a: [u8; 32],
    token_mint_b: [u8; 32],
    token_vault_a: [u8; 32],
    token_vault_b: [u8; 32],
    tick_spacing: u16,
    initial_sqrt_price: u128,
    fee_rate: u16,
    bump: u8,
) -> (r: Result<(Pool, PoolInitialized), TidePoolError>)
    ensures
        !(tick_spacing > 0 && tick_spacing <= 200) ==> r == Err::<(Pool, PoolInitialized), TidePoolError>(TidePoolError::InvalidTickSpacing),
        (tick_spacing > 0 && tick_spacing <= 200) && !(MIN_SQRT_PRICE <= initial_sqrt_price <= MAX_SQRT_PRICE)
            ==> r == Err::<(Pool, PoolInitialized), TidePoolError>(TidePoolError::SqrtPriceOutOfBounds),
        (tick_spacing > 0 && tick_spacing <= 200) && (MIN_SQRT_PRICE <= initial_sqrt_price <= MAX_SQRT_PRICE)
            && !(fee_rate > 0 && fee_rate <= 10_000) ==> r == Err::<(Pool, PoolInitialized), TidePoolError>(TidePoolError::InvalidFeeRate),
        r is Ok <==> (tick_spacing > 0 && tick_spacing <= 200) && (MIN_SQRT_PRICE <= initial_sqrt_price <= MAX_SQRT_PRICE)
            && (fee_rate > 0 && fee_rate <= 10_000),
        r matches Ok((pool, event)) ==> {
            &&& pool.inv()
            &&& event == PoolInitialized {
                pool: pool_key,
                token_mint_a,
                token_mint_b,
                tick_spacing,
                initial_sqrt_price,
                fee_rate,
            }
            &&& pool.authority == authority
            &&& pool.token_mint_a == token_mint_a
            &&& pool.token_mint_b == token_mint_b
            &&& pool.token_vault_a == token_vault_a
            &&& pool.token_vault_b == token_vault_b
            &&& pool.sqrt_price == initial_sqrt_price
            &&& is_tick_of_price(pool.tick_current_index as int, initial_sqrt_price as int)
            &&& pool.tick_spacing == tick_spacing
            &&& pool.liquidity == 0
            &&& pool.fee_rate == fee_rate
            &&& pool.protocol_fee_rate == DEFAULT_PROTOCOL_FEE_RATE
            &&& pool.fee_growth_global_a == 0
            &&& pool.fee_growth_global_b == 0
            &&& pool.protocol_fees_owed_a == 0
            &&& pool.protocol_fees_owed_b == 0
            &&& pool.total_liquidity_provided == 0
            &&& pool.num_positions == 0
            &&& !pool.paused
            &&& pool.bump == bump
        },
{
    if !(tick_spacing > 0 && tick_spacing <= 200) {
        return Err(TidePoolError::InvalidTickSpacing);
    }
    if !(initial_sqrt_price >= MIN_SQRT_PRICE && initial_sqrt_price <= MAX_SQRT_PRICE) {
        return Err(TidePoolError::SqrtPriceOutOfBounds);
    }
    if !(fee_rate > 0 && fee_rate <= 10_000) {
        return Err(TidePoolError::InvalidFeeRate);
    }

    let initial_tick = match sqrt_price_to_tick(initial_sqrt_price) {
        Ok(t) => t,
        Err(e) => {
            return Err(e);
        },
    };

    let pool = Pool {
        authority,
        token_mint_a,
        token_mint_b,
        token_vault_a,
        token_vault_b,
        sqrt_price: initial_sqrt_price,
        tick_current_index: initial_tick,
        tick_spacing,
        liquidity: 0,
        fee_rate,
        protocol_fee_rate: DEFAULT_PROTOCOL_FEE_RATE,  // 10% of fees go to protocol
        fee_growth_global_a: 0,
        fee_growth_global_b: 0,
        protocol_fees_owed_a: 0,
        protocol_fees_owed_b: 0,
        total_liquidity_provided: 0,
        num_positions: 0,
        paused: false,
        bump,
    };
    let event = PoolInitialized {
        pool: pool_key,
        token_mint_a,
        token_mint_b,
        tick_spacing,
        initial_sqrt_price,
        fee_rate,
    };
    Ok((pool, event))
}

} // verus!

use vstd::prelude::*;

use crate::keeper::decode::{
    le_i32, le_u128, le_u16, le_u32, read_i32_le, read_key, read_u128_le, read_u16_le, read_u32_le,
};
use crate::keeper::errors::KeeperError;
use vstd::arithmetic::div_mod::{lemma_fundamental_div_mod, lemma_mod_multiples_basic, lemma_mod_pos_bound};

verus! {

/// What the keeper reads of a vault account.
#[derive(Debug, Clone, Copy, PartialEq, Eq)]
pub struct VaultState {
    pub authority: [u8; 32],
    pub keeper: [u8; 32],
    pub pool: [u8; 32],
    pub active_tick_lower: i32,
    pub active_tick_upper: i32,
    pub has_active_position: bool,
    pub rebalance_threshold_bps: u16,
    pub tick_range_multiplier: u8,
    pub rebalance_count: u32,
    pub paused: bool,
}

/// What the keeper reads of a pool account.
#[derive(Debug, Clone, Copy, PartialEq, Eq)]
pub struct PoolState {
    pub sqrt_price: u128,
    pub tick_current_index: i32,
    pub tick_spacing: u16,
    pub liquidity: u128,
}

/// Division rounded toward zero, as on machine integers.
pub open spec fn trunc_div(a: int, b: int) -> int {
    if a >= 0 {
        a / b
    } else {
        -((-a) / b)
    }
}

/// Distance from each edge of the range within which the price counts as near it:
/// `rebalance_threshold_bps` of the range width, rounded toward zero.
pub open spec fn spec_edge_threshold(vault: VaultState) -> int {
    trunc_div(
        (vault.active_tick_upper - vault.active_tick_lower) * vault.rebalance_threshold_bps,
        10_000,
    )
}

/// The vault needs moving: it has an active, unpaused position, and the current tick
/// is outside its range or within the edge threshold of either edge.
pub open spec fn spec_should_rebalance(pool: PoolState, vault: VaultState) -> bool {
    let t = pool.tick_current_index;
    let lower = vault.active_tick_lower;
    let upper = vault.active_tick_upper;
    let threshold = spec_edge_threshold(vault);
    &&& vault.has_active_position
    &&& !vault.paused
    &&& (t < lower || t >= upper || t < lower + threshold || t > upper - threshold)
}

/// Whether the price has left the vault's range or come near one of its edges.
pub fn should_rebalance(pool: &PoolState, vault: &VaultState) -> (r: bool)
    ensures
        r == spec_should_rebalance(*pool, *vault),
{
    if !vault.has_active_position {
        return false;
    }
    if vault.paused {
        return false;
    }

    let current_tick = pool.tick_current_index;

    // Price moved outside active range entirely
    if current_tick < vault.active_tick_lower || current_tick >= vault.active_tick_upper {
        return true;
    }

    // Price near edge of range (within threshold), computed in 64 bits so that no range
    // of `i32` ticks overflows
    let lower = vault.active_tick_lower as i64;
    let upper = vault.active_tick_upper as i64;
    let range_width = upper - lower;
    proof {
        assert(0 <= range_width * vault.rebalance_threshold_bps <= 0x1_0000_0000 * 0x1_0000) by (nonlinear_arith)
            requires
                0 < range_width <= 0x1_0000_0000,
        ;
    }
    let threshold = range_width * vault.rebalance_threshold_bps as i64 / 10000;
    let t = current_tick as i64;

    if t < lower + threshold {
        return true;
    }
    if t > upper - threshold {
        return true;
    }

    false
}

/// `trunc_div(a, b) * b` is `a` rounded toward zero to a multiple of `b`.
proof fn lemma_trunc_div_bounds(a: int, b: int)
    requires
        b > 0,
    ensures
        a >= 0 ==> 0 <= trunc_div(a, b) * b <= a && a - trunc_div(a, b) * b < b,
        a < 0 ==> a <= trunc_div(a, b) * b <= 0 && trunc_div(a, b) * b - a < b,
        (trunc_div(a, b) * b) % b == 0,
{
    let c = if a >= 0 { a } else { -a };
    lemma_fundamental_div_mod(c, b);
    lemma_mod_pos_bound(c, b);
    assert(0 <= (c / b) * b) by (nonlinear_arith)
        requires
            c >= 0,
            b > 0,
            b * (c / b) + c % b == c,
            c % b < b,
    ;
    assert(b * (c / b) == (c / b) * b) by (nonlinear_arith);
    assert((-(c / b)) * b == -((c / b) * b)) by (nonlinear_arith);
    lemma_mod_multiples_basic(trunc_div(a, b), b);
}

/// Half-width of the range the keeper aims for: `tick_range_multiplier` tick spacings.
pub open spec fn spec_range_half_width(pool: PoolState, vault: VaultState) -> int {
    vault.tick_range_multiplier * pool.tick_spacing
}

/// The range centered on the current tick, `spec_range_half_width` to either side, with
/// each end rounded toward zero to a multiple of the tick spacing.
pub open spec fn spec_optimal_range(pool: PoolState, vault: VaultState) -> (int, int) {
    let t = pool.tick_current_index as int;
    let s = pool.tick_spacing as int;
    let w = spec_range_half_width(pool, vault);
    (trunc_div(t - w, s) * s, trunc_div(t + w, s) * s)
}

/// The spacing is not zero and both ends stay within `i32`.
pub open spec fn optimal_range_defined(pool: PoolState, vault: VaultState) -> bool {
    &&& pool.tick_spacing > 0
    &&& pool.tick_current_index - spec_range_half_width(pool, vault) >= i32::MIN
    &&& pool.tick_current_index + spec_range_half_width(pool, vault) <= i32::MAX
}

/// Calculate the optimal new tick range centered on the current price. Both ends are
/// multiples of the tick spacing, and with a multiplier of at least one the current
/// tick lies strictly inside.
pub fn calculate_optimal_range(pool: &PoolState, vault: &VaultState) -> (r: (i32, i32))
    requires
        optimal_range_defined(*pool, *vault),
    ensures
        r.0 == spec_optimal_range(*pool, *vault).0,
        r.1 == spec_optimal_range(*pool, *vault).1,
        (r.0 as int) % (pool.tick_spacing as int) == 0,
        (r.1 as int) % (pool.tick_spacing as int) == 0,
        vault.tick_range_multiplier >= 1 ==> r.0 < pool.tick_current_index < r.1,
{
    let current_tick = pool.tick_current_index;
    let tick_spacing = pool.tick_spacing as i32;
    proof {
        assert(vault.tick_range_multiplier * pool.tick_spacing <= 255 * 65535) by (nonlinear_arith);
        assert(0 <= vault.tick_range_multiplier * pool.tick_spacing) by (nonlinear_arith);
    }
    let range_width = vault.tick_range_multiplier as i32 * tick_spacing;

    // Center around current tick, aligned to tick spacing
    let ql = (current_tick - range_width) / tick_spacing;
    let qu = (current_tick + range_width) / tick_spacing;
    proof {
        lemma_trunc_div_bounds(current_tick - range_width, tick_spacing as int);
        lemma_trunc_div_bounds(current_tick + range_width, tick_spacing as int);
        if vault.tick_range_multiplier >= 1 {
            assert(range_width >= tick_spacing) by (nonlinear_arith)
                requires
                    range_width == vault.tick_range_multiplier * tick_spacing,
                    vault.tick_range_multiplier >= 1,
                    tick_spacing > 0,
            ;
        }
    }
    let tick_lower = ql * tick_spacing;
    let tick_upper = qu * tick_spacing;

    (tick_lower, tick_upper)
}

/// Whether `can_decide_rebalance`'s conditions hold:
/// when it says to move, so is `calculate_optimal_range`.
pub open spec fn rebalance_decision_defined(pool: PoolState, vault: VaultState) -> bool {
    spec_should_rebalance(pool, vault) ==> optimal_range_defined(pool, vault)
}

/// What one check of the vault leads to.
#[derive(Debug, Clone, Copy, PartialEq, Eq, Structural)]
pub enum RebalanceDecision {
    /// The price is well inside the range: nothing to do
    Hold,
    /// A move to the given range is needed, but this is a dry run: report it only
    DryRun { new_tick_lower: i32, new_tick_upper: i32 },
    /// Submit a rebalance to the given range
    Submit { new_tick_lower: i32, new_tick_upper: i32 },
}

/// The decision `decide_rebalance` makes.
pub open spec fn spec_decide_rebalance(pool: PoolState, vault: VaultState, dry_run: bool) -> RebalanceDecision {
    if !spec_should_rebalance(pool, vault) {
        RebalanceDecision::Hold
    } else {
        let (lower, upper) = spec_optimal_range(pool, vault);
        if dry_run {
            RebalanceDecision::DryRun { new_tick_lower: lower as i32, new_tick_upper: upper as i32 }
        } else {
            RebalanceDecision::Submit { new_tick_lower: lower as i32, new_tick_upper: upper as i32 }
        }
    }
}

/// Whether the vault's state and the pool's current tick keep every step of
/// `decide_rebalance` within `i32`; the keeper checks this before deciding.
pub fn can_decide_rebalance(pool: &PoolState, vault: &VaultState) -> (r: bool)
    ensures
        r == rebalance_decision_defined(*pool, *vault),
{
    let t = pool.tick_current_index as i64;
    if !should_rebalance(pool, vault) {
        return true;
    }
    proof {
        assert(0 <= vault.tick_range_multiplier * pool.tick_spacing <= 255 * 65535) by (nonlinear_arith);
    }
    let half_width = vault.tick_range_multiplier as i64 * pool.tick_spacing as i64;
    pool.tick_spacing > 0 && t - half_width >= i32::MIN as i64 && t + half_width <= i32::MAX as i64
}

/// Decides what to do on one check: hold while the price is well inside the range,
/// otherwise move to the range centered on the current tick (only reporting it on a
/// dry run).
pub fn decide_rebalance(pool: &PoolState, vault: &VaultState, dry_run: bool) -> (r: RebalanceDecision)
    requires
        rebalance_decision_defined(*pool, *vault),
    ensures
        r == spec_decide_rebalance(*pool, *vault, dry_run),
{
    if !should_rebalance(pool, vault) {
        return RebalanceDecision::Hold;
    }
    let (new_lower, new_upper) = calculate_optimal_range(pool, vault);
    if dry_run {
        RebalanceDecision::DryRun { new_tick_lower: new_lower, new_tick_upper: new_upper }
    } else {
        RebalanceDecision::Submit { new_tick_lower: new_lower, new_tick_upper: new_upper }
    }
}

/// Where each field of `VaultState` is read from the vault data (after the 8-byte
/// discriminator), following the vault account's field order.
pub open spec fn vault_state_decoded(d: Seq<u8>, v: VaultState) -> bool {
    &&& v.authority@ == d.subrange(0, 32)
    &&& v.keeper@ == d.subrange(32, 64)
    &&& v.pool@ == d.subrange(64, 96)
    &&& v.active_tick_lower == le_i32(d, 224)
    &&& v.active_tick_upper == le_i32(d, 228)
    &&& v.has_active_position == (d[232] != 0)
    &&& v.rebalance_threshold_bps == le_u16(d, 233)
    &&& v.tick_range_multiplier == d[235]
    &&& v.rebalance_count == le_u32(d, 294)
    &&& v.paused == (d[302] != 0)
}

/// Shortest vault data (after the discriminator) the keeper reads: every byte up to and
/// including the pause flag.
pub const VAULT_DATA_MIN_LEN: usize = 303;

/// Shortest pool data (after the discriminator) the keeper reads.
pub const POOL_DATA_MIN_LEN: usize = 200;

/// Length of the account discriminator that precedes the data.
pub const DISCRIMINATOR_LEN: usize = 8;

/// Reads the vault state from vault account data without its discriminator.
pub fn deserialize_vault_state(data: &[u8]) -> (r: Result<VaultState, KeeperError>)
    ensures
        data@.len() < VAULT_DATA_MIN_LEN ==> r == Err::<VaultState, KeeperError>(KeeperError::VaultDataTooShort),
        data@.len() >= VAULT_DATA_MIN_LEN ==> r is Ok && vault_state_decoded(data@, r->Ok_0),
{
    if data.len() < VAULT_DATA_MIN_LEN {
        return Err(KeeperError::VaultDataTooShort);
    }

    let authority = read_key(data, 0);
    let keeper = read_key(data, 32);
    let pool = read_key(data, 64);
    // skip share_mint (32), token_vault_a (32), token_vault_b (32) = 96 bytes
    // skip active_position (32) = offset 224
    let offset: usize = 96 + 32 + 32 + 32 + 32;
    let active_tick_lower = read_i32_le(data, offset);
    let active_tick_upper = read_i32_le(data, offset + 4);
    let has_active_position = data[offset + 8] != 0;
    let rebalance_threshold_bps = read_u16_le(data, offset + 9);
    let tick_range_multiplier = data[offset + 11];

    // skip max_slippage_bps (2), the accounting (5 * 8) and the two slots (2 * 8)
    let rebalance_count = read_u32_le(data, offset + 70);
    // skip performance_fee_bps (2) and management_fee_bps (2)
    let paused = data[offset + 78] != 0;

    Ok(
        VaultState {
            authority,
            keeper,
            pool,
            active_tick_lower,
            active_tick_upper,
            has_active_position,
            rebalance_threshold_bps,
            tick_range_multiplier,
            rebalance_count,
            paused,
        },
    )
}

/// The pool state read from pool data without its discriminator.
pub open spec fn spec_pool_state(d: Seq<u8>) -> PoolState {
    PoolState {
        sqrt_price: le_u128(d, 160) as u128,
        tick_current_index: le_i32(d, 176) as i32,
        tick_spacing: le_u16(d, 180) as u16,
        liquidity: le_u128(d, 182) as u128,
    }
}

/// Reads the pool state from pool account data without its discriminator.
pub fn deserialize_pool_state(data: &[u8]) -> (r: Result<PoolState, KeeperError>)
    ensures
        data@.len() < POOL_DATA_MIN_LEN ==> r == Err::<PoolState, KeeperError>(KeeperError::PoolDataTooShort),
        data@.len() >= POOL_DATA_MIN_LEN ==> r == Ok::<PoolState, KeeperError>(spec_pool_state(data@)),
{
    if data.len() < POOL_DATA_MIN_LEN {
        return Err(KeeperError::PoolDataTooShort);
    }

    // Skip authority (32), token_mint_a (32), token_mint_b (32),
    // token_vault_a (32), token_vault_b (32) = 160 bytes
    let offset: usize = 160;
    let sqrt_price = read_u128_le(data, offset);
    let tick_current_index = read_i32_le(data, offset + 16);
    let tick_spacing = read_u16_le(data, offset + 20);
    let liquidity = read_u128_le(data, offset + 22);

    Ok(PoolState { sqrt_price, tick_current_index, tick_spacing, liquidity })
}

/// Reads the vault state from a whole vault account, discriminator included.
pub fn read_vault_account(data: &[u8]) -> (r: Result<VaultState, KeeperError>)
    ensures
        data@.len() < DISCRIMINATOR_LEN ==> r == Err::<VaultState, KeeperError>(
            KeeperError::InvalidVaultAccountData,
        ),
        DISCRIMINATOR_LEN <= data@.len() < DISCRIMINATOR_LEN + VAULT_DATA_MIN_LEN ==> r == Err::<
            VaultState,
            KeeperError,
        >(KeeperError::VaultDataTooShort),
        data@.len() >= DISCRIMINATOR_LEN + VAULT_DATA_MIN_LEN ==> r is Ok && vault_state_decoded(
            data@.subrange(DISCRIMINATOR_LEN as int, data@.len() as int),
            r->Ok_0,
        ),
{
    if data.len() < DISCRIMINATOR_LEN {
        return Err(KeeperError::InvalidVaultAccountData);
    }
    deserialize_vault_state(&data[DISCRIMINATOR_LEN..data.len()])
}

/// Reads the pool state from a whole pool account, discriminator included.
pub fn read_pool_account(data: &[u8]) -> (r: Result<PoolState, KeeperError>)
    ensures
        data@.len() < DISCRIMINATOR_LEN ==> r == Err::<PoolState, KeeperError>(
            KeeperError::InvalidPoolAccountData,
        ),
        DISCRIMINATOR_LEN <= data@.len() < DISCRIMINATOR_LEN + POOL_DATA_MIN_LEN ==> r == Err::<
            PoolState,
            KeeperError,
        >(KeeperError::PoolDataTooShort),
        data@.len() >= DISCRIMINATOR_LEN + POOL_DATA_MIN_LEN ==> r == Ok::<PoolState, KeeperError>(
            spec_pool_state(data@.subrange(DISCRIMINATOR_LEN as int, data@.len() as int)),
        ),
{
    if data.len() < DISCRIMINATOR_LEN {
        return Err(KeeperError::InvalidPoolAccountData);
    }
    deserialize_pool_state(&data[DISCRIMINATOR_LEN..data.len()])
}

} // verus!

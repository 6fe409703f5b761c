use vstd::prelude::*;

use crate::clmm::errors::TidePoolError;
use crate::clmm::math::sqrt_price_math::low_u64;
use crate::clmm::math::u256::pow64;

verus! {

/// Maximum fee rate: 100% (10000 hundredths of a bip = 100bps = 1%)
pub const MAX_FEE_RATE: u16 = 10000;

/// `fee = amount * fee_rate / 1_000_000`, rounded down.
pub open spec fn spec_fee_amount(amount: u64, fee_rate: u16) -> int {
    (amount * fee_rate) / 1_000_000
}

/// `(fee_amount << 64) / liquidity`, or zero without fee or liquidity.
pub open spec fn spec_fee_growth_delta(fee_amount: u64, liquidity: u128) -> int {
    if liquidity == 0 || fee_amount == 0 {
        0
    } else {
        (fee_amount * pow64()) / (liquidity as int)
    }
}

/// `fee_amount * protocol_fee_rate / 10_000`, cut to 64 bits.
pub open spec fn spec_protocol_fee(fee_amount: u64, protocol_fee_rate: u16) -> u64 {
    if protocol_fee_rate == 0 {
        0
    } else {
        low_u64((fee_amount * protocol_fee_rate) / 10_000)
    }
}

/// The fee never exceeds the amount it is taken from.
proof fn lemma_fee_below_amount(amount: u64, fee_rate: u16)
    ensures
        0 <= spec_fee_amount(amount, fee_rate) <= amount,
{
    assert(0 <= (amount * fee_rate) / 1_000_000 <= amount) by (nonlinear_arith)
        requires 0 <= amount, 0 <= fee_rate <= 65535;
}

/// Calculate fee amount from a gross amount.
/// fee = amount * fee_rate / 1_000_000
/// (fee_rate is in hundredths of a basis point, so 1_000_000 = 100%)
pub fn calculate_fee_amount(amount: u64, fee_rate: u16) -> (r: Result<u64, TidePoolError>)
    ensures
        r == Ok::<u64, TidePoolError>(spec_fee_amount(amount, fee_rate) as u64),
        0 <= spec_fee_amount(amount, fee_rate) <= amount,
{
    proof {
        lemma_fee_below_amount(amount, fee_rate);
    }
    if fee_rate == 0 {
        assert(amount * fee_rate == 0) by (nonlinear_arith)
            requires fee_rate == 0;
        return Ok(0);
    }
    assert((amount as u128) * (fee_rate as u128) <= u128::MAX) by (nonlinear_arith)
        requires 0 <= amount <= u64::MAX, 0 <= fee_rate <= 65535;
    let fee = (amount as u128) * (fee_rate as u128) / 1_000_000u128;
    Ok(fee as u64)
}

/// Calculate the amount after fees.
/// amount_after = amount - fee
pub fn calculate_amount_after_fees(amount: u64, fee_rate: u16) -> (r: Result<(u64, u64), TidePoolError>)
    ensures
        r == Ok::<(u64, u64), TidePoolError>(((amount - spec_fee_amount(amount, fee_rate)) as u64, spec_fee_amount(amount, fee_rate) as u64)),
        0 <= spec_fee_amount(amount, fee_rate) <= amount,
{
    let fee = match calculate_fee_amount(amount, fee_rate) {
        Ok(f) => f,
        Err(e) => {
            return Err(e);
        },
    };
    let amount_after = amount - fee;
    Ok((amount_after, fee))
}

/// Update global fee growth given a fee amount and current liquidity.
/// fee_growth_delta = (fee_amount << 64) / liquidity (Q64.64)
pub fn calculate_fee_growth_delta(fee_amount: u64, liquidity: u128) -> (r: u128)
    ensures
        r == spec_fee_growth_delta(fee_amount, liquidity),
{
    if liquidity == 0 || fee_amount == 0 {
        return 0;
    }
    proof {
        crate::clmm::math::sqrt_price_math::lemma_quotient_below_max(fee_amount * pow64(), liquidity as int);
    }
    ((fee_amount as u128) * 0x1_0000_0000_0000_0000) / liquidity
}

/// Calculate protocol fee from total fee.
pub fn calculate_protocol_fee(fee_amount: u64, protocol_fee_rate: u16) -> (r: u64)
    ensures
        r == spec_protocol_fee(fee_amount, protocol_fee_rate),
        protocol_fee_rate <= 10_000 ==> r <= fee_amount,
{
    if protocol_fee_rate == 0 {
        return 0;
    }
    assert((fee_amount as u128) * (protocol_fee_rate as u128) <= u128::MAX) by (nonlinear_arith)
        requires 0 <= fee_amount <= u64::MAX, 0 <= protocol_fee_rate <= 65535;
    let fee = (fee_amount as u128) * (protocol_fee_rate as u128) / 10_000u128;
    proof {
        crate::clmm::math::sqrt_price_math::lemma_low_u64(fee);
        if protocol_fee_rate <= 10_000 {
            assert(fee <= fee_amount) by (nonlinear_arith)
                requires fee == (fee_amount * protocol_fee_rate) / 10_000, protocol_fee_rate <= 10_000, fee_amount >= 0;
            vstd::arithmetic::div_mod::lemma_small_mod(fee as nat, pow64() as nat);
        }
    }
    fee as u64
}

} // verus!

use vstd::prelude::*;

use crate::model::{LedgerError, TokenNumber};

verus! {

/// Whether a pool and a bet admit a quote: both reserves positive, the bet not negative.
pub open spec fn valid_pricing_input(pool_yes: int, pool_no: int, bet_amount: int) -> bool {
    pool_yes > 0 && pool_no > 0 && bet_amount >= 0
}

/// Checks the integer inputs of a quote against a two-outcome pool.
pub fn check_pricing_input(pool_yes: TokenNumber, pool_no: TokenNumber, bet_amount: TokenNumber) -> (r:
    Result<(), LedgerError>)
    ensures
        r is Ok <==> valid_pricing_input(pool_yes as int, pool_no as int, bet_amount as int),
        r is Err ==> r == Err::<(), LedgerError>(LedgerError::InvalidPricingInput),
{
    if pool_yes <= 0 || pool_no <= 0 || bet_amount < 0 {
        Err(LedgerError::InvalidPricingInput)
    } else {
        Ok(())
    }
}

} // verus!

//! Storage fees: what one stored byte costs and what a minted token owes.

use vstd::prelude::*;

verus! {

/// The price of one byte of contract storage, in yoctoNEAR.
pub open spec fn byte_cost() -> nat {
    10_000_000_000_000_000_000
}

/// The fee owed for a record of `bytes` bytes.
pub open spec fn storage_cost(bytes: u64) -> nat {
    bytes as nat * byte_cost()
}

/// Calls `near_sdk::env::storage_byte_cost`. Trusted: the function returns the
/// constant `STORAGE_PRICE_PER_BYTE` of that crate, which is 10^19 yoctoNEAR.
#[verifier::external_body]
fn storage_byte_cost() -> (cost: u128)
    ensures
        cost == byte_cost(),
{
    near_sdk::env::storage_byte_cost()
}

/// The fee owed for a record of `bytes` bytes. It always fits in a `u128`.
pub fn storage_fee(bytes: u64) -> (fee: u128)
    ensures
        fee == storage_cost(bytes),
{
    let cost: u128 = storage_byte_cost();
    assert(bytes as nat * byte_cost() <= u128::MAX) by (nonlinear_arith)
        requires
            bytes <= u64::MAX,
            byte_cost() == 10_000_000_000_000_000_000,
    ;
    bytes as u128 * cost
}

} // verus!

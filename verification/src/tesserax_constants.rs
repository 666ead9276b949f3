//! Chain-level constants: the token's mathematical supply constants, its
//! units, the block timing, and the runtime's version identity.

use vstd::prelude::*;

verus! {

/// Fixed-point precision of the mathematical constants: nine decimals.
pub const PRECISION: u128 = 1_000_000_000;

/// The circle constant, at nine decimals.
pub const PI: u128 = 3_141_592_653;

/// The natural base, at nine decimals.
pub const E: u128 = 2_718_281_828;

/// The golden ratio, at nine decimals.
pub const PHI: u128 = 1_618_033_988;

/// Maximum token supply in whole tokens.
pub const MAX_SUPPLY_UNITS: u128 = 13_817_580;

/// Number of decimals of the token.
pub const TOKEN_DECIMALS: u8 = 18;

/// One whole token in its smallest unit.
pub const TSRX: u128 = 1_000_000_000_000_000_000;

/// A thousandth of a token.
pub const MILLI_TSRX: u128 = 1_000_000_000_000_000;

/// A millionth of a token.
pub const MICRO_TSRX: u128 = 1_000_000_000_000;

/// Alias kept for callers that use the generic unit names.
pub const UNIT: u128 = TSRX;

/// Alias kept for callers that use the generic unit names.
pub const MILLI_UNIT: u128 = MILLI_TSRX;

/// Alias kept for callers that use the generic unit names.
pub const MICRO_UNIT: u128 = MICRO_TSRX;

/// Maximum token supply in the smallest unit.
pub const MAX_SUPPLY: u128 = 13_817_580_000_000_000_000_000_000;

/// Supply distributed at genesis: a tenth of the maximum.
pub const GENESIS_SUPPLY: u128 = 1_381_758_000_000_000_000_000_000;

/// Endowment of each of the four development accounts.
pub const DEV_ENDOWMENT: u128 = 345_439_500_000_000_000_000_000;

/// Smallest balance an account may hold.
pub const EXISTENTIAL_DEPOSIT: u128 = TSRX;

/// The chain identifier, the supply constant scaled down by a thousand.
pub const CHAIN_ID: u64 = 13817;

/// Target block time in milliseconds.
pub const MILLI_SECS_PER_BLOCK: u64 = 6000;

/// Slot duration, equal to the block time.
pub const SLOT_DURATION: u64 = MILLI_SECS_PER_BLOCK;

/// Blocks per minute.
pub const MINUTES: u32 = 10;

/// Blocks per hour.
pub const HOURS: u32 = MINUTES * 60;

/// Blocks per day.
pub const DAYS: u32 = HOURS * 24;

/// Version number of the runtime's specification.
pub const SPEC_VERSION: u32 = 100;

/// The token's ticker symbol.
pub fn token_symbol() -> (r: &'static str)
    ensures
        r@ == "TSRX"@,
{
    "TSRX"
}

/// The token's name.
pub fn token_name() -> (r: &'static str)
    ensures
        r@ == "Tesserax"@,
{
    "Tesserax"
}

/// The runtime's specification name.
pub fn runtime_spec_name() -> (r: &'static str)
    ensures
        r@ == "tesserax-runtime"@,
{
    "tesserax-runtime"
}

/// The runtime's implementation name, equal to the specification name.
pub fn runtime_impl_name() -> (r: &'static str)
    ensures
        r@ == "tesserax-runtime"@,
{
    "tesserax-runtime"
}

} // verus!

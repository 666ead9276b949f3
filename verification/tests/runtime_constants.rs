use reml::tesserax_constants::{CHAIN_ID, DAYS, E, EXISTENTIAL_DEPOSIT, GENESIS_SUPPLY, HOURS,
    MAX_SUPPLY, MAX_SUPPLY_UNITS, MICRO_TSRX, MICRO_UNIT, MILLI_SECS_PER_BLOCK, MILLI_TSRX,
    MILLI_UNIT, MINUTES, PHI, PI, PRECISION, SLOT_DURATION, SPEC_VERSION, TOKEN_DECIMALS, TSRX,
    UNIT};
use reml::tesserax_constants::{runtime_impl_name, runtime_spec_name, token_name, token_symbol};

#[test]
fn tesserax_constants_are_correct() {
    // The product of the three constants lands near the supply constant.
    let product = (PI as u128) * (E as u128) / PRECISION * (PHI as u128) / PRECISION;

    assert!(product >= 13_800_000_000 && product <= 13_850_000_000);

    // Max supply should be 13,817,580 whole tokens.
    assert_eq!(MAX_SUPPLY_UNITS, 13_817_580);
}

#[test]
fn genesis_supply_is_ten_percent_of_max() {
    let expected_genesis = MAX_SUPPLY / 10;
    let diff = if GENESIS_SUPPLY > expected_genesis {
        GENESIS_SUPPLY - expected_genesis
    } else {
        expected_genesis - GENESIS_SUPPLY
    };

    // Allow 1% tolerance
    assert!(diff < MAX_SUPPLY / 100);
}

#[test]
fn integration_evm_chain_id() {
    // Chain ID is the supply constant scaled down by a thousand.
    assert_eq!(CHAIN_ID, 13817);
}

#[test]
fn integration_block_time() {
    assert_eq!(MILLI_SECS_PER_BLOCK, 6000);
    assert_eq!(SLOT_DURATION, 6000);
}

#[test]
fn integration_tsrx_unit_definitions() {
    assert_eq!(TSRX, 1_000_000_000_000_000_000u128);
    assert_eq!(MILLI_TSRX, 1_000_000_000_000_000u128);
    assert_eq!(MICRO_TSRX, 1_000_000_000_000u128);

    assert_eq!(TSRX, MILLI_TSRX * 1000);
    assert_eq!(MILLI_TSRX, MICRO_TSRX * 1000);

    assert_eq!(UNIT, TSRX);
    assert_eq!(MILLI_UNIT, MILLI_TSRX);
    assert_eq!(MICRO_UNIT, MICRO_TSRX);
}

#[test]
fn integration_existential_deposit() {
    // Existential deposit should be 1 TSRX
    assert_eq!(EXISTENTIAL_DEPOSIT, TSRX);
}

#[test]
fn integration_version_info() {
    assert_eq!(runtime_spec_name(), "tesserax-runtime");
    assert_eq!(runtime_impl_name(), "tesserax-runtime");
    assert_eq!(SPEC_VERSION, 100);
}

#[test]
fn integration_token_identity() {
    assert_eq!(TOKEN_DECIMALS, 18);
    assert_eq!(token_symbol(), "TSRX");
    assert_eq!(token_name(), "Tesserax");
    assert_eq!(MAX_SUPPLY, 13_817_580_000_000_000_000_000_000u128);
}

#[test]
fn integration_time_derivations() {
    assert_eq!(MINUTES, 10);
    assert_eq!(HOURS, 600);
    assert_eq!(DAYS, 14400);
}

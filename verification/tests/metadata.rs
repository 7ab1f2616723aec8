use tenk::contract::Contract;
use tenk::error::Error;
use tenk::metadata::{create_metadata, to_decimal};

#[test]
fn numbers_are_written_in_decimal() {
    assert_eq!(to_decimal(0), "0");
    assert_eq!(to_decimal(7), "7");
    assert_eq!(to_decimal(10), "10");
    assert_eq!(to_decimal(5055), "5055");
    assert_eq!(to_decimal(1234567890), "1234567890");
    assert_eq!(to_decimal(u64::MAX), u64::MAX.to_string());
}

#[test]
fn metadata_names_the_files_after_the_identifier() {
    let m = create_metadata(5055, 1_650_000_000_000_000_000);
    assert_eq!(m.title, "5055");
    assert_eq!(m.media, "5055.png");
    assert_eq!(m.reference, "5055.json");
    assert_eq!(m.issued_at, "1650000000000000000");
}

#[test]
fn storage_cost_of_one_unit() {
    assert_eq!(Contract::token_storage_cost(10_000_000_000_000_000_000, 350), Ok(3_500_000_000_000_000_000_000));
    assert_eq!(Contract::token_storage_cost(u128::MAX, 2), Err(Error::Overflow));
    assert_eq!(Contract::token_storage_cost(0, u64::MAX), Ok(0));
}

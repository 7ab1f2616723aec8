use tenk::token::one_token_in_yocto;

#[test]
fn test_get_one_token() {
    let decimals_24: u8 = 24;
    let decimals_18: u8 = 18;
    let decimals_8: u8 = 8;

    let one_token_24: u128 = one_token_in_yocto(decimals_24);
    let one_token_18: u128 = one_token_in_yocto(decimals_18);
    let one_token_8: u128 = one_token_in_yocto(decimals_8);

    assert_eq!(one_token_24, 1_000_000_000_000_000_000_000_000);
    assert_eq!(one_token_18, 1_000_000_000_000_000_000);
    assert_eq!(one_token_8, 100_000_000);
}

use tenk::account::AccountId;
use tenk::contract::Contract;
use tenk::error::Error;
use tenk::model::Charge;
use tenk::sale::{Sale, Status};

const NOW: u64 = 1_000;

fn open_sale(price: u128) -> Sale {
    Sale {
        initial_royalties: true,
        presale_start: None,
        public_sale_start: Some(0),
        allowance: None,
        presale_price: None,
        price,
        mint_rate_limit: None,
    }
}

fn owner() -> AccountId {
    AccountId::new("owner.near")
}

fn alice() -> AccountId {
    AccountId::new("alice.near")
}

#[test]
fn new_contract_is_empty() {
    let c = Contract::new(owner(), 1000, open_sale(1));
    assert_eq!(c.tokens_left(), 1000);
    assert_eq!(c.initial(), 1000);
    assert_eq!(c.owner().as_str(), "owner.near");
    assert!(c.admins().is_empty());
    assert!(c.get_whitelisted_tokens().is_empty());
    assert_eq!(c.get_status(NOW), Status::Open);
    assert_eq!(c.mint_rate_limit(), None);
    assert!(!c.whitelisted(&alice()));
    assert_eq!(c.remaining_allowance(&alice()), None);
    let d = Contract::new_with_sale_price(owner(), 10, 7);
    assert_eq!(d.get_status(NOW), Status::Closed);
    assert_eq!(d.price(1, NOW), Ok(7));
}

#[test]
fn owner_and_backup_owner_are_privileged() {
    let c = Contract::new(owner(), 10, open_sale(1));
    assert!(c.is_owner(&owner()));
    assert!(c.is_owner(&AccountId::new("willem.near")));
    assert!(!c.is_owner(&alice()));
    assert_eq!(c.minting_cost(&owner(), 5, NOW), Ok(0));
    assert_eq!(c.minting_cost(&AccountId::new("willem.near"), 5, NOW), Ok(0));
    assert_eq!(c.minting_cost(&alice(), 5, NOW), Ok(5));
}

#[test]
fn scenario_owner_mints_600_then_account_mints_10() {
    let mut c = Contract::new(owner(), 1000, open_sale(1));
    let ids = c.nft_mint_many(&owner(), None, 600, NOW, 42).unwrap();
    assert_eq!(ids.len(), 600);
    assert_eq!(c.charge_user(0, 0, 0), Ok(Charge { cost: 0, royalties: 0, refund: 0 }));
    assert_eq!(c.tokens_left(), 400);

    assert_eq!(c.total_cost(10, &alice(), &None, NOW), Ok(10));
    let more = c.nft_mint_many(&alice(), None, 10, NOW, 43).unwrap();
    assert_eq!(more.len(), 10);
    for id in &more {
        assert!(!ids.contains(id));
        assert!(*id < 1000);
    }
    assert_eq!(c.charge_user(10, 0, 0), Ok(Charge { cost: 10, royalties: 10, refund: 0 }));
    assert_eq!(c.tokens_left(), 390);
    assert_eq!(c.initial(), 1000);
}

#[test]
fn mint_draws_by_the_seed() {
    let mut c = Contract::new(owner(), 5, open_sale(1));
    assert_eq!(c.nft_mint_many(&alice(), None, 3, NOW, 7), Ok(vec![2, 3, 1]));
    assert_eq!(c.tokens_left(), 2);
}

#[test]
fn mint_one_hands_out_one_identifier() {
    let mut c = Contract::new(owner(), 5, open_sale(1));
    assert_eq!(c.nft_mint_one(&alice(), None, NOW, 7), Ok(2));
    assert_eq!(c.tokens_left(), 4);
    assert_eq!(c.nft_mint_one(&alice(), None, NOW, 7), Err(Error::Unsettled));
}

#[test]
fn closed_sale_rejects_and_changes_nothing() {
    let mut c = Contract::new_with_sale_price(owner(), 10, 1);
    assert_eq!(c.nft_mint_many(&alice(), None, 1, NOW, 0), Err(Error::Closed));
    assert_eq!(c.assert_can_mint(&alice(), 1, NOW), Err(Error::Closed));
    assert_eq!(c.tokens_left(), 10);
    // the owner is not held back by the phase
    assert_eq!(c.nft_mint_many(&owner(), None, 2, NOW, 0).map(|v| v.len()), Ok(2));
}

#[test]
fn sold_out_rejects() {
    let mut c = Contract::new(owner(), 2, open_sale(1));
    assert_eq!(c.nft_mint_many(&alice(), None, 2, NOW, 0).map(|v| v.len()), Ok(2));
    assert_eq!(c.charge_user(2, 0, 0).map(|ch| ch.cost), Ok(2));
    assert_eq!(c.get_status(NOW), Status::SoldOut);
    assert_eq!(c.nft_mint_many(&alice(), None, 1, NOW, 0), Err(Error::SoldOut));
    assert_eq!(c.nft_mint_many(&owner(), None, 1, NOW, 0), Err(Error::Exhausted));
    assert_eq!(c.nft_mint_many(&owner(), None, 0, NOW, 0), Ok(vec![]));
}

#[test]
fn batch_is_clamped_to_what_is_left() {
    let mut c = Contract::new(owner(), 3, open_sale(2));
    assert_eq!(c.assert_can_mint(&alice(), 10, NOW), Ok(3));
    let ids = c.nft_mint_many(&alice(), None, 10, NOW, 5).unwrap();
    assert_eq!(ids.len(), 3);
    assert_eq!(c.charge_user(100, 0, 0), Ok(Charge { cost: 6, royalties: 6, refund: 94 }));
}

#[test]
fn over_mint_limit_rejects() {
    let mut sale = open_sale(1);
    sale.mint_rate_limit = Some(3);
    let mut c = Contract::new(owner(), 10, sale);
    assert_eq!(c.mint_rate_limit(), Some(3));
    assert_eq!(c.nft_mint_many(&alice(), None, 4, NOW, 0), Err(Error::OverMintLimit));
    assert_eq!(c.nft_mint_many(&owner(), None, 4, NOW, 0), Err(Error::OverMintLimit));
    assert_eq!(c.nft_mint_many(&alice(), None, 3, NOW, 0).map(|v| v.len()), Ok(3));
}

#[test]
fn capped_sale_seeds_and_consumes_the_allowance() {
    let mut sale = open_sale(1);
    sale.allowance = Some(5);
    let mut c = Contract::new(owner(), 100, sale);
    assert!(c.has_allowance(NOW));
    assert_eq!(c.get_whitelist_allowance(&alice()), Some(5));
    assert_eq!(c.remaining_allowance(&alice()), None);
    assert_eq!(c.nft_mint_many(&alice(), None, 3, NOW, 0).map(|v| v.len()), Ok(3));
    assert_eq!(c.remaining_allowance(&alice()), Some(2));
    c.charge_user(3, 0, 0).unwrap();
    // asks for 4, has 2 left
    assert_eq!(c.nft_mint_many(&alice(), None, 4, NOW, 0).map(|v| v.len()), Ok(2));
    assert_eq!(c.remaining_allowance(&alice()), Some(0));
    c.charge_user(2, 0, 0).unwrap();
    assert_eq!(c.nft_mint_many(&alice(), None, 1, NOW, 0), Err(Error::NoAllowance));
    assert_eq!(c.remaining_allowance(&alice()), Some(0));
    // the owner never touches the allow list
    assert_eq!(c.nft_mint_many(&owner(), None, 7, NOW, 0).map(|v| v.len()), Ok(7));
    assert_eq!(c.remaining_allowance(&owner()), None);
}

#[test]
fn open_sale_without_cap_keeps_no_allowance() {
    let mut c = Contract::new(owner(), 100, open_sale(1));
    assert!(!c.has_allowance(NOW));
    assert_eq!(c.nft_mint_many(&alice(), None, 9, NOW, 0).map(|v| v.len()), Ok(9));
    assert_eq!(c.remaining_allowance(&alice()), None);
    assert!(!c.whitelisted(&alice()));
}

#[test]
fn presale_needs_an_allowance() {
    let sale = Sale {
        initial_royalties: true,
        presale_start: Some(0),
        public_sale_start: Some(5_000),
        allowance: None,
        presale_price: Some(3),
        price: 8,
        mint_rate_limit: None,
    };
    let mut c = Contract::new(owner(), 100, sale);
    assert_eq!(c.get_status(NOW), Status::Presale);
    assert!(c.is_presale(NOW));
    assert_eq!(c.nft_mint_many(&alice(), None, 1, NOW, 0), Err(Error::NoAllowance));
    assert_eq!(c.add_whitelist_account(&owner(), &alice(), 2), Ok(()));
    assert!(c.whitelisted(&alice()));
    assert_eq!(c.total_cost(2, &alice(), &None, NOW), Ok(6));
    assert_eq!(c.nft_mint_many(&alice(), None, 5, NOW, 0).map(|v| v.len()), Ok(2));
    assert_eq!(c.remaining_allowance(&alice()), Some(0));
    assert_eq!(c.charge_user(6, 0, 0), Ok(Charge { cost: 6, royalties: 6, refund: 0 }));
    // once the public sale is on, the price is the public one and no cap applies
    assert_eq!(c.total_cost(2, &alice(), &None, 6_000), Ok(16));
    assert_eq!(c.nft_mint_many(&alice(), None, 2, 6_000, 0).map(|v| v.len()), Ok(2));
}

#[test]
fn zero_units_are_no_allowance() {
    let mut c = Contract::new(owner(), 10, open_sale(1));
    assert_eq!(c.nft_mint_many(&alice(), None, 0, NOW, 0), Err(Error::NoAllowance));
}

#[test]
fn unknown_token_rejects_the_mint() {
    let mut c = Contract::new(owner(), 10, open_sale(1));
    let token = AccountId::new("token.near");
    assert_eq!(c.nft_mint_many(&alice(), Some(token), 1, NOW, 0), Err(Error::UnknownToken));
    assert_eq!(c.tokens_left(), 10);
}

#[test]
fn cost_that_overflows_rejects_the_mint() {
    let mut c = Contract::new(owner(), 10, open_sale(u128::MAX));
    assert_eq!(c.price(2, NOW), Err(Error::Overflow));
    assert_eq!(c.total_cost(2, &alice(), &None, NOW), Err(Error::Overflow));
    assert_eq!(c.nft_mint_many(&alice(), None, 2, NOW, 0), Err(Error::Overflow));
    assert_eq!(c.tokens_left(), 10);
    assert_eq!(c.nft_mint_many(&alice(), None, 1, NOW, 0).map(|v| v.len()), Ok(1));
}

#[test]
fn charge_without_a_mint_fails() {
    let mut c = Contract::new(owner(), 10, open_sale(1));
    assert_eq!(c.charge_user(100, 0, 0), Err(Error::NotSettling));
}

#[test]
fn charge_deducts_storage_then_cost_and_refunds_the_rest() {
    let mut c = Contract::new(owner(), 10, open_sale(100));
    c.nft_mint_many(&alice(), None, 2, NOW, 0).unwrap();
    // storage: 10 bytes at 3 each = 30; cost 200; attached 1000
    assert_eq!(c.charge_user(1000, 10, 3), Ok(Charge { cost: 200, royalties: 200, refund: 770 }));
    assert_eq!(c.charge_user(1000, 10, 3), Err(Error::NotSettling));
}

#[test]
fn charge_fails_on_insufficient_funds_and_keeps_waiting() {
    let mut c = Contract::new(owner(), 10, open_sale(100));
    c.nft_mint_many(&alice(), None, 2, NOW, 0).unwrap();
    assert_eq!(c.charge_user(229, 10, 3), Err(Error::InsufficientFunds));
    assert_eq!(c.charge_user(29, 10, 3), Err(Error::InsufficientFunds));
    assert_eq!(c.charge_user(1, u64::MAX, u128::MAX), Err(Error::Overflow));
    assert_eq!(c.charge_user(230, 10, 3), Ok(Charge { cost: 200, royalties: 200, refund: 0 }));
}

#[test]
fn refund_of_one_unit_is_forfeited() {
    let mut c = Contract::new(owner(), 10, open_sale(100));
    c.nft_mint_many(&alice(), None, 1, NOW, 0).unwrap();
    assert_eq!(c.charge_user(101, 0, 0), Ok(Charge { cost: 100, royalties: 100, refund: 0 }));
    c.nft_mint_many(&alice(), None, 1, NOW, 0).unwrap();
    assert_eq!(c.charge_user(102, 0, 0), Ok(Charge { cost: 100, royalties: 100, refund: 2 }));
}

#[test]
fn without_royalties_a_native_payment_is_refunded_in_full() {
    let mut sale = open_sale(100);
    sale.initial_royalties = false;
    let mut c = Contract::new(owner(), 10, sale);
    c.nft_mint_many(&alice(), None, 2, NOW, 0).unwrap();
    assert_eq!(c.charge_user(99, 0, 0), Err(Error::InsufficientFunds));
    assert_eq!(c.charge_user(250, 5, 2), Ok(Charge { cost: 200, royalties: 0, refund: 240 }));
}

#[test]
fn sale_info_shows_the_sale() {
    let mut sale = open_sale(4);
    sale.presale_start = Some(77);
    let c = Contract::new(owner(), 10, sale);
    let info = c.get_sale_info(NOW).unwrap();
    assert_eq!(info.status, Status::Open);
    assert_eq!(info.presale_start, 77);
    assert_eq!(info.sale_start, 0);
    assert_eq!(info.token_final_supply, 10);
    assert_eq!(info.price, 4);
    let d = Contract::new_with_sale_price(owner(), 3, 9);
    let info = d.get_sale_info(NOW).unwrap();
    assert_eq!(info.status, Status::Closed);
    assert_eq!(info.presale_start, 8640000000000000);
    assert_eq!(info.sale_start, 8640000000000000);
    assert_eq!(info.token_final_supply, 3);
}

#[test]
fn user_sale_info_shows_the_allowance_while_capped() {
    let mut sale = open_sale(4);
    sale.allowance = Some(3);
    let mut c = Contract::new(owner(), 10, sale);
    let info = c.get_user_sale_info(&alice(), NOW).unwrap();
    assert!(!info.is_vip);
    assert_eq!(info.remaining_allowance, None);
    c.nft_mint_many(&alice(), None, 1, NOW, 0).unwrap();
    let info = c.get_user_sale_info(&alice(), NOW).unwrap();
    assert!(info.is_vip);
    assert_eq!(info.remaining_allowance, Some(2));
    assert_eq!(info.sale_info.price, 4);
}

use tenk::account::AccountId;
use tenk::contract::Contract;
use tenk::error::Error;
use tenk::sale::Sale;

fn owner() -> AccountId {
    AccountId::new("owner.near")
}

fn alice() -> AccountId {
    AccountId::new("alice.near")
}

fn bob() -> AccountId {
    AccountId::new("bob.near")
}

fn token() -> AccountId {
    AccountId::new("token.near")
}

fn contract() -> Contract {
    Contract::new(owner(), 10, Sale::new(1))
}

#[test]
fn only_the_owner_names_admins() {
    let mut c = contract();
    assert_eq!(c.add_admin(&alice(), &alice()), Err(Error::NotAuthorized));
    assert!(!c.is_admin(&alice()));
    assert_eq!(c.add_admin(&owner(), &alice()), Ok(()));
    assert!(c.is_admin(&alice()));
    assert!(c.is_owner_or_admin(&alice()));
    assert!(!c.is_owner(&alice()));
    // an admin is no owner
    assert_eq!(c.add_admin(&alice(), &bob()), Err(Error::NotAuthorized));
    assert_eq!(c.add_admin(&owner(), &alice()), Ok(()));
    let names: Vec<String> = c.admins().iter().map(|a| a.as_str().to_string()).collect();
    assert_eq!(names, vec!["alice.near".to_string()]);
    assert_eq!(c.remove_admin(&alice(), &alice()), Err(Error::NotAuthorized));
    assert_eq!(c.remove_admin(&AccountId::new("willem.near"), &alice()), Ok(()));
    assert!(!c.is_admin(&alice()));
    assert!(c.admins().is_empty());
}

#[test]
fn admins_accept_tokens() {
    let mut c = contract();
    assert_eq!(c.admin_whitelist_token(&alice(), &token(), 2000, 20, 3), Err(Error::NotAuthorized));
    c.add_admin(&owner(), &alice()).unwrap();
    assert_eq!(c.admin_whitelist_token(&alice(), &token(), 2000, 20, 3), Ok(()));
    assert_eq!(c.admin_whitelist_token(&alice(), &token(), 3000, 20, 3), Err(Error::TokenExists));
    assert_eq!(
        c.admin_whitelist_token(&alice(), &bob(), 100, 20, 3),
        Err(Error::InvalidParameter)
    );
    assert_eq!(
        c.admin_whitelist_token(&alice(), &bob(), 2000, 100, 3),
        Err(Error::InvalidParameter)
    );
    assert_eq!(
        c.admin_whitelist_token(&alice(), &bob(), 2000, 20, 39),
        Err(Error::InvalidParameter)
    );
    let tokens = c.get_whitelisted_tokens();
    assert_eq!(tokens.len(), 1);
    assert_eq!(tokens[0].0.as_str(), "token.near");
    assert_eq!(tokens[0].1.token_near, 2000);
    assert_eq!(tokens[0].1.token_boost, 80);
    assert_eq!(tokens[0].1.decimals, 3);
}

#[test]
fn rate_must_be_above_a_hundred() {
    let mut c = contract();
    c.admin_whitelist_token(&owner(), &token(), 2000, 20, 3).unwrap();
    assert_eq!(c.admin_set_cheddar_near(&alice(), &token(), 500), Err(Error::NotAuthorized));
    assert_eq!(c.admin_set_cheddar_near(&owner(), &token(), 0), Err(Error::InvalidParameter));
    assert_eq!(c.admin_set_cheddar_near(&owner(), &token(), 100), Err(Error::InvalidParameter));
    assert_eq!(c.admin_set_cheddar_near(&owner(), &bob(), 500), Err(Error::UnknownToken));
    assert_eq!(c.admin_set_cheddar_near(&owner(), &token(), 101), Ok(()));
    let tokens = c.get_whitelisted_tokens();
    assert_eq!((tokens[0].1.token_near, tokens[0].1.token_boost, tokens[0].1.decimals), (101, 80, 3));
}

#[test]
fn discount_must_be_below_a_hundred() {
    let mut c = contract();
    c.admin_whitelist_token(&owner(), &token(), 2000, 20, 3).unwrap();
    assert_eq!(c.admin_set_token_discount(&alice(), &token(), 5), Err(Error::NotAuthorized));
    assert_eq!(c.admin_set_token_discount(&owner(), &token(), 100), Err(Error::InvalidParameter));
    assert_eq!(c.admin_set_token_discount(&owner(), &bob(), 5), Err(Error::UnknownToken));
    assert_eq!(c.admin_set_token_discount(&owner(), &token(), 0), Ok(()));
    let tokens = c.get_whitelisted_tokens();
    assert_eq!((tokens[0].1.token_near, tokens[0].1.token_boost, tokens[0].1.decimals), (2000, 100, 3));
}

#[test]
fn allow_list_is_kept_by_owner_and_admins() {
    let mut c = contract();
    assert_eq!(c.add_whitelist_account(&alice(), &bob(), 3), Err(Error::NotAuthorized));
    c.add_admin(&owner(), &alice()).unwrap();
    assert_eq!(c.add_whitelist_account(&alice(), &bob(), 3), Ok(()));
    assert_eq!(c.remaining_allowance(&bob()), Some(3));
    assert_eq!(c.add_whitelist_account(&owner(), &bob(), 1), Ok(()));
    assert_eq!(c.remaining_allowance(&bob()), Some(1));
    assert!(c.whitelisted(&bob()));
}

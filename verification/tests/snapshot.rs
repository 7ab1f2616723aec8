use tenk::account::AccountId;
use tenk::contract::{Contract, Unsettled};
use tenk::raffle::Raffle;
use tenk::sale::Sale;
use tenk::snapshot::Snapshot;
use tenk::token::TokenParameters;

const NOW: u64 = 1_000;

fn sale() -> Sale {
    Sale {
        initial_royalties: true,
        presale_start: None,
        public_sale_start: Some(0),
        allowance: Some(4),
        presale_price: None,
        price: 1000,
        mint_rate_limit: None,
    }
}

fn busy() -> Contract {
    let owner = AccountId::new("owner.near");
    let alice = AccountId::new("alice.near");
    let token = AccountId::new("token.near");
    let mut c = Contract::new(owner.clone(), 20, sale());
    c.add_admin(&owner, &alice).unwrap();
    c.admin_whitelist_token(&owner, &token, 2000, 20, 3).unwrap();
    c.ft_on_transfer(&token, &alice, 5000).unwrap();
    c.send_with_callback(&alice, NOW).unwrap();
    c.send_with_callback(&alice, NOW).unwrap();
    c.on_send_with_callback(0, false, 0).unwrap();
    c.nft_mint_many(&alice, Some(token), 3, NOW, 11).unwrap();
    c
}

fn empty(size: u32, pool: Vec<u64>) -> Snapshot {
    Snapshot {
        owner_id: AccountId::new("owner.near"),
        size,
        pool,
        sale: sale(),
        whitelist: vec![],
        admins: vec![],
        tokens: vec![],
        deposits: vec![],
        settling: None,
        attempts: vec![],
        next_attempt: 0,
    }
}

#[test]
fn export_then_restore_gives_the_same_engine() {
    let c = busy();
    let s = c.export();
    assert_eq!(s.size, 20);
    assert_eq!(s.pool.len(), 17);
    assert_eq!(s.attempts, vec![(1u64, ())]);
    assert_eq!(s.next_attempt, 2);
    assert_eq!(s.whitelist.len(), 1);
    assert_eq!(s.whitelist[0].1, 1);
    assert_eq!(s.deposits[0].1, 5000);
    let settling = s.settling.as_ref().unwrap();
    assert_eq!((settling.num, settling.cost), (3, 1200));
    let mut d = Contract::restore(s).unwrap();
    let alice = AccountId::new("alice.near");
    let token = AccountId::new("token.near");
    assert_eq!(d.tokens_left(), c.tokens_left());
    assert_eq!(d.tokens_left(), 16);
    assert_eq!(d.initial(), 20);
    assert!(d.is_admin(&alice));
    assert_eq!(d.balance_of(&alice, &token), 5000);
    assert_eq!(d.remaining_allowance(&alice), Some(1));
    // the restored engine goes on where the first stood
    let mut c = c;
    assert_eq!(c.charge_user(9, 0, 0), d.charge_user(9, 0, 0));
    assert_eq!(d.balance_of(&alice, &token), 3800);
    assert_eq!(c.nft_mint_many(&alice, None, 1, NOW, 5), d.nft_mint_many(&alice, None, 1, NOW, 5));
}

#[test]
fn restore_rejects_a_pool_with_a_repeated_identifier() {
    assert!(Contract::restore(empty(5, vec![0, 1, 1])).is_none());
    assert!(Contract::restore(empty(5, vec![0, 1, 5])).is_none());
    assert!(Contract::restore(empty(5, vec![4, 1, 0])).is_some());
    assert!(Raffle::from_ids(vec![0, 1, 2, 3, 4, 5], 5).is_none());
    assert!(Raffle::from_ids(vec![3, 3], 5).is_none());
    let pool = Raffle::from_ids(vec![3, 1], 5).unwrap();
    assert_eq!(pool.ids(), vec![3, 1]);
    assert_eq!(pool.initial_len(), 5);
}

#[test]
fn restore_rejects_repeated_keys() {
    let mut s = empty(5, vec![0, 1]);
    s.whitelist = vec![(AccountId::new("a"), 1), (AccountId::new("a"), 2)];
    assert!(Contract::restore(s).is_none());
    let mut s = empty(5, vec![0, 1]);
    s.admins = vec![(AccountId::new("a"), ()), (AccountId::new("a"), ())];
    assert!(Contract::restore(s).is_none());
    let mut s = empty(5, vec![0, 1]);
    s.attempts = vec![(0, ()), (0, ())];
    s.next_attempt = 1;
    assert!(Contract::restore(s).is_none());
}

#[test]
fn restore_rejects_more_promises_than_identifiers() {
    let mut s = empty(5, vec![0]);
    s.attempts = vec![(0, ()), (1, ())];
    s.next_attempt = 2;
    assert!(Contract::restore(s).is_none());
    let mut s = empty(5, vec![0, 3]);
    s.attempts = vec![(0, ()), (1, ())];
    s.next_attempt = 2;
    let c = Contract::restore(s).unwrap();
    assert_eq!(c.tokens_left(), 0);
    let mut s = empty(5, vec![0, 3]);
    s.attempts = vec![(0, ()), (2, ())];
    s.next_attempt = 2;
    assert!(Contract::restore(s).is_none());
}

#[test]
fn restore_rejects_unsound_books() {
    let token = AccountId::new("token.near");
    let alice = AccountId::new("alice.near");
    let terms = TokenParameters::new(2000, 20, 3).unwrap();
    let mut s = empty(5, vec![0]);
    s.tokens = vec![(token.clone(), terms)];
    s.deposits = vec![((token.clone(), alice.clone()), 0)];
    assert!(Contract::restore(s).is_none());
    let mut s = empty(5, vec![0]);
    s.deposits = vec![((token.clone(), alice.clone()), 7)];
    assert!(Contract::restore(s).is_none());
    let mut s = empty(5, vec![0]);
    s.tokens = vec![(token.clone(), TokenParameters { token_near: 100, token_boost: 80, decimals: 3 })];
    assert!(Contract::restore(s).is_none());
    let mut s = empty(5, vec![0]);
    s.settling = Some(Unsettled { user: alice.clone(), token: Some(token.clone()), num: 1, cost: 1 });
    assert!(Contract::restore(s).is_none());
    let mut s = empty(5, vec![0]);
    s.tokens = vec![(token.clone(), terms)];
    s.deposits = vec![((token.clone(), alice.clone()), 7)];
    s.settling = Some(Unsettled { user: alice.clone(), token: Some(token.clone()), num: 1, cost: 1 });
    let c = Contract::restore(s).unwrap();
    assert_eq!(c.balance_of(&alice, &token), 7);
}

use tenk::account::{AccountId, Key};
use tenk::assoc::AssocMap;

#[test]
fn table_holds_one_value_for_a_key() {
    let mut t: AssocMap<AccountId, u32> = AssocMap::new();
    assert_eq!(t.len(), 0);
    assert_eq!(t.get(&AccountId::new("a")), None);
    t.insert(AccountId::new("a"), 1);
    t.insert(AccountId::new("b"), 2);
    t.insert(AccountId::new("a"), 3);
    assert_eq!(t.len(), 2);
    assert_eq!(t.get(&AccountId::new("a")), Some(&3));
    assert_eq!(t.get(&AccountId::new("b")), Some(&2));
    assert!(t.contains_key(&AccountId::new("b")));
    assert!(!t.contains_key(&AccountId::new("c")));
    assert_eq!(t.key_at(0).as_str(), "a");
    assert_eq!(*t.value_at(1), 2);
}

#[test]
fn remove_takes_the_key_out() {
    let mut t: AssocMap<u64, u32> = AssocMap::new();
    for k in 0..5u64 {
        t.insert(k, (k * 10) as u32);
    }
    assert_eq!(t.remove(&1), Some(10));
    assert_eq!(t.remove(&1), None);
    assert_eq!(t.len(), 4);
    for k in [0u64, 2, 3, 4] {
        assert_eq!(t.get(&k), Some(&((k * 10) as u32)));
    }
    assert_eq!(t.remove(&4), Some(40));
    assert_eq!(t.remove(&0), Some(0));
    assert_eq!(t.len(), 2);
    assert!(t.contains_key(&2) && t.contains_key(&3));
}

#[test]
fn keys_are_told_apart_by_their_names() {
    let a = AccountId::new("alice.near");
    assert!(a.same(&AccountId::new("alice.near")));
    assert!(!a.same(&AccountId::new("alice.nea")));
    assert!(a.is_named("alice.near"));
    assert_eq!(a.duplicate().as_str(), "alice.near");
    assert_eq!(a.clone().as_str(), "alice.near");
    let pair = (AccountId::new("t"), AccountId::new("u"));
    assert!(pair.same(&(AccountId::new("t"), AccountId::new("u"))));
    assert!(!pair.same(&(AccountId::new("u"), AccountId::new("t"))));
    assert!(7u64.same(&7));
    assert!(!7u64.same(&8));
}

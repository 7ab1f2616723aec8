use tenk::sale::{Sale, Status, MAX_DATE};

fn terms(presale: Option<u64>, public: Option<u64>) -> Sale {
    Sale {
        initial_royalties: false,
        presale_start: presale,
        public_sale_start: public,
        allowance: None,
        presale_price: Some(5),
        price: 8,
        mint_rate_limit: None,
    }
}

#[test]
fn sold_out_overrides_everything() {
    assert_eq!(terms(Some(1), Some(2)).status(0, 100), Status::SoldOut);
    assert_eq!(terms(None, None).status(0, 100), Status::SoldOut);
}

#[test]
fn open_after_the_public_start() {
    assert_eq!(terms(Some(10), Some(20)).status(1, 21), Status::Open);
    assert_eq!(terms(None, Some(20)).status(1, 21), Status::Open);
    // the start itself is not yet after the start
    assert_eq!(terms(None, Some(20)).status(1, 20), Status::Closed);
}

#[test]
fn presale_between_the_starts() {
    assert_eq!(terms(Some(10), Some(20)).status(1, 11), Status::Presale);
    assert_eq!(terms(Some(10), Some(20)).status(1, 20), Status::Presale);
    assert_eq!(terms(Some(10), None).status(1, u64::MAX), Status::Presale);
    assert_eq!(terms(Some(10), Some(20)).status(1, 10), Status::Closed);
}

#[test]
fn closed_without_starts() {
    assert_eq!(terms(None, None).status(1, u64::MAX), Status::Closed);
    assert_eq!(terms(Some(10), Some(20)).status(1, 0), Status::Closed);
}

#[test]
fn base_price_by_phase() {
    let sale = terms(Some(10), Some(20));
    assert_eq!(sale.base_price(Status::Presale), 5);
    assert_eq!(sale.base_price(Status::Closed), 5);
    assert_eq!(sale.base_price(Status::Open), 8);
    assert_eq!(sale.base_price(Status::SoldOut), 8);
    let plain = Sale::new(8);
    assert_eq!(plain.base_price(Status::Presale), 8);
    assert_eq!(plain.price, 8);
    assert_eq!(plain.presale_price, None);
}

#[test]
fn cap_applies_in_presale_or_where_set() {
    let mut sale = terms(Some(10), Some(20));
    assert!(sale.capped(Status::Presale));
    assert!(!sale.capped(Status::Open));
    sale.allowance = Some(3);
    assert!(sale.capped(Status::Open));
    assert_eq!(MAX_DATE, 8640000000000000);
}

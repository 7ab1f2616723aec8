use tenk::pricing::{checked_compute_price, compute_price, GEN1, GENERATION};

#[test]
fn first_generation_sells_at_the_base_price() {
    assert_eq!(compute_price(0, 555, 1), 555);
    assert_eq!(compute_price(0, 1, 7), 7);
    assert_eq!(compute_price(100, 455, 3), 455 * 3);
    assert_eq!(GEN1, 555);
    assert_eq!(GENERATION, 100);
}

#[test]
fn second_generation_still_sells_at_the_base_price() {
    assert_eq!(compute_price(555, 100, 1), 100);
    assert_eq!(compute_price(600, 10, 1), 10);
}

#[test]
fn batch_across_the_first_boundary() {
    assert_eq!(compute_price(554, 2, 1), 2);
}

#[test]
fn each_later_generation_costs_one_more() {
    assert_eq!(compute_price(655, 100, 1), 200);
    assert_eq!(compute_price(755, 1, 1), 3);
    assert_eq!(compute_price(650, 10, 5), 5 * 5 + 5 * 6);
    assert_eq!(compute_price(555, 300, 10), 100 * 10 + 100 * 11 + 100 * 12);
}

#[test]
fn empty_batch_costs_nothing() {
    assert_eq!(compute_price(0, 0, 9), 0);
    assert_eq!(compute_price(700, 0, 9), 0);
}

#[test]
fn price_telescopes_on_examples() {
    let cases: [(u32, u32, u32, u128); 5] =
        [(0, 555, 100, 1), (500, 60, 250, 3), (554, 1, 1, 1), (640, 20, 180, 1000), (0, 0, 10, 4)];
    for (issued, a, b, base) in cases {
        assert_eq!(
            compute_price(issued, a + b, base),
            compute_price(issued, a, base) + compute_price(issued + a, b, base)
        );
    }
}

#[test]
fn price_equals_the_sum_of_unit_prices() {
    let base: u128 = 17;
    let mut sum: u128 = 0;
    for i in 540u32..900 {
        sum += compute_price(i, 1, base);
    }
    assert_eq!(compute_price(540, 360, base), sum);
}

#[test]
fn checked_price_reports_overflow() {
    assert_eq!(checked_compute_price(0, 2, u128::MAX), None);
    assert_eq!(checked_compute_price(0, 1, u128::MAX), Some(u128::MAX));
    assert_eq!(checked_compute_price(655, 1, u128::MAX), None);
    assert_eq!(checked_compute_price(654, 1, u128::MAX), Some(u128::MAX));
    assert_eq!(checked_compute_price(600, 10, 1), Some(10));
}

#[test]
fn price_of_a_large_batch() {
    // 555 units at 2, then 4 generations of 100 at 2, 3, 4, 5, then 45 at 6
    assert_eq!(
        compute_price(0, 1000, 2),
        555 * 2 + 100 * 2 + 100 * 3 + 100 * 4 + 100 * 5 + 45 * 6
    );
}

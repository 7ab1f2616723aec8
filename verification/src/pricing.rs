//! The price curve: what a batch of units costs, given how many were issued before it.

use vstd::prelude::*;

verus! {

/// Number of units of the first generation. All of them cost the base price.
pub const GEN1: u32 = 555;

/// Number of units of every generation after the first.
pub const GENERATION: u32 = 100;

/// What the unit sold after `issued` others costs above the base price:
/// nothing within the first generation, and one more for every full
/// generation issued beyond it.
pub open spec fn surcharge(issued: nat) -> nat {
    if issued < GEN1 as nat {
        0
    } else {
        ((issued - GEN1 as nat) / (GENERATION as int)) as nat
    }
}

/// Price of the single unit sold after `issued` others.
pub open spec fn unit_price(issued: nat, base: nat) -> nat {
    base + surcharge(issued)
}

/// Cost of `batch` units sold one after the other, the first of them after
/// `issued` others: the sum of their unit prices.
pub open spec fn price(issued: nat, batch: nat, base: nat) -> nat
    decreases batch,
{
    if batch == 0 {
        0
    } else {
        price(issued, (batch - 1) as nat, base) + unit_price(issued + (batch - 1) as nat, base)
    }
}

/// A batch costs what its two parts cost, the second priced from where the
/// first ends: `price(i, a + b, p) == price(i, a, p) + price(i + a, b, p)`.
pub proof fn lemma_price_telescopes(issued: nat, a: nat, b: nat, base: nat)
    ensures
        price(issued, a + b, base) == price(issued, a, base) + price(issued + a, b, base),
    decreases b,
{
    if b > 0 {
        lemma_price_telescopes(issued, a, (b - 1) as nat, base);
        assert(a + (b - 1) as nat == (a + b - 1) as nat);
    }
}

/// The surcharge never falls as more units are issued.
pub proof fn lemma_surcharge_monotonic(i: nat, j: nat)
    requires
        i <= j,
    ensures
        surcharge(i) <= surcharge(j),
{
}

/// A larger batch never costs less.
pub proof fn lemma_price_monotonic(issued: nat, a: nat, b: nat, base: nat)
    requires
        a <= b,
    ensures
        price(issued, a, base) <= price(issued, b, base),
{
    lemma_price_telescopes(issued, a, (b - a) as nat, base);
}

/// Units that share one surcharge cost their number times the unit price.
pub proof fn lemma_price_of_run(issued: nat, n: nat, base: nat)
    requires
        n > 0 ==> surcharge(issued) == surcharge((issued + n - 1) as nat),
    ensures
        price(issued, n, base) == n * unit_price(issued, base),
    decreases n,
{
    if n > 0 {
        let m = (n - 1) as nat;
        if m > 0 {
            lemma_surcharge_monotonic(issued, (issued + m - 1) as nat);
            lemma_surcharge_monotonic((issued + m - 1) as nat, (issued + n - 1) as nat);
        }
        lemma_price_of_run(issued, m, base);
        assert(n * unit_price(issued, base) == m * unit_price(issued, base) + unit_price(
            issued,
            base,
        )) by (nonlinear_arith)
            requires
                n == m + 1,
        ;
    }
}

/// How many units, counted from the one sold after `issued` others, share its
/// surcharge: what is left of its generation.
pub open spec fn room(issued: nat) -> nat {
    if issued < GEN1 as nat {
        (GEN1 as nat - issued) as nat
    } else {
        (GENERATION as nat - (issued - GEN1 as nat) % (GENERATION as int)) as nat
    }
}

/// The cost of a batch, generation by generation, or `None` where it does
/// not fit in 128 bits.
pub fn checked_compute_price(counter: u32, num: u32, start_price: u128) -> (r: Option<u128>)
    ensures
        match r {
            Some(cost) => cost == price(counter as nat, num as nat, start_price as nat),
            None => price(counter as nat, num as nat, start_price as nat) > u128::MAX,
        },
{
    let ghost total = price(counter as nat, num as nat, start_price as nat);
    let mut cost: u128 = 0;
    let mut at: u64 = counter as u64;
    let mut left: u64 = num as u64;
    while left > 0
        invariant
            counter <= at,
            at + left == counter + num,
            cost == price(counter as nat, (at - counter) as nat, start_price as nat),
            total == price(counter as nat, num as nat, start_price as nat),
        decreases left,
    {
        let ahead: u64 = if at < GEN1 as u64 {
            GEN1 as u64 - at
        } else {
            GENERATION as u64 - (at - GEN1 as u64) % (GENERATION as u64)
        };
        let above: u64 = if at < GEN1 as u64 {
            0
        } else {
            (at - GEN1 as u64) / (GENERATION as u64)
        };
        let take: u64 = if left < ahead {
            left
        } else {
            ahead
        };
        proof {
            let done = (at - counter) as nat;
            assert(ahead == room(at as nat));
            assert(above == surcharge(at as nat));
            assert(surcharge(at as nat) == surcharge((at + take - 1) as nat));
            lemma_price_of_run(at as nat, take as nat, start_price as nat);
            lemma_price_telescopes(counter as nat, done, take as nat, start_price as nat);
            lemma_price_monotonic(counter as nat, done + take as nat, num as nat, start_price as nat);
            assert(take * unit_price(at as nat, start_price as nat) >= unit_price(
                at as nat,
                start_price as nat,
            )) by (nonlinear_arith)
                requires
                    take >= 1,
            ;
        }
        let unit = match start_price.checked_add(above as u128) {
            Some(unit) => unit,
            None => {
                return None;
            },
        };
        proof {
            assert(unit * take == take * unit_price(at as nat, start_price as nat))
                by (nonlinear_arith)
                requires
                    unit == unit_price(at as nat, start_price as nat),
            ;
        }
        let part = match unit.checked_mul(take as u128) {
            Some(part) => part,
            None => {
                return None;
            },
        };
        cost = match cost.checked_add(part) {
            Some(sum) => sum,
            None => {
                return None;
            },
        };
        at = at + take;
        left = left - take;
    }
    Some(cost)
}

/// The cost of `num` units when `counter` units were issued before them and
/// the first generation sells at `start_price`.
pub fn compute_price(counter: u32, num: u32, start_price: u128) -> (cost: u128)
    requires
        price(counter as nat, num as nat, start_price as nat) <= u128::MAX,
    ensures
        cost == price(counter as nat, num as nat, start_price as nat),
{
    match checked_compute_price(counter, num, start_price) {
        Some(cost) => cost,
        None => 0,
    }
}

} // verus!

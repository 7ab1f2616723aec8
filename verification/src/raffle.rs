//! The pool of identifiers that are still to be handed out.

use vstd::prelude::*;
use crate::error::Error;

verus! {

/// The slot that a draw takes from a pool that is not empty.
pub open spec fn pick(pool: Seq<u64>, entropy: u64) -> int {
    entropy as int % pool.len() as int
}

/// The pool after the identifier in slot `i` has left it: the last
/// identifier moves into the slot, and the pool is one shorter.
pub open spec fn without(pool: Seq<u64>, i: int) -> Seq<u64> {
    pool.update(i, pool.last()).drop_last()
}

/// The pool after one draw for each value of `entropy`, in their order. A
/// draw from an empty pool leaves it empty.
pub open spec fn left(pool: Seq<u64>, entropy: Seq<u64>) -> Seq<u64>
    decreases entropy.len(),
{
    if entropy.len() == 0 {
        pool
    } else {
        let before = left(pool, entropy.drop_last());
        if before.len() == 0 {
            before
        } else {
            without(before, pick(before, entropy.last()))
        }
    }
}

/// The identifiers that one draw for each value of `entropy` hands out, in
/// the order of the draws. A draw from an empty pool hands out nothing.
pub open spec fn drawn(pool: Seq<u64>, entropy: Seq<u64>) -> Seq<u64>
    decreases entropy.len(),
{
    if entropy.len() == 0 {
        Seq::empty()
    } else {
        let before = left(pool, entropy.drop_last());
        let earlier = drawn(pool, entropy.drop_last());
        if before.len() == 0 {
            earlier
        } else {
            earlier.push(before[pick(before, entropy.last())])
        }
    }
}

/// The entropy of a batch of `num` draws that all go by one seed.
pub open spec fn seeds(seed: u64, num: nat) -> Seq<u64> {
    Seq::new(num, |i: int| seed)
}

/// Taking one identifier out of a pool without repetitions leaves a pool
/// without repetitions that holds every other identifier and not that one.
pub proof fn lemma_without(pool: Seq<u64>, i: int)
    requires
        pool.no_duplicates(),
        0 <= i < pool.len(),
    ensures
        without(pool, i).len() == pool.len() - 1,
        without(pool, i).no_duplicates(),
        !without(pool, i).contains(pool[i]),
        forall|id: u64| pool.contains(id) <==> id == pool[i] || without(pool, i).contains(id),
{
    let rest = without(pool, i);
    let last = pool.len() - 1;
    assert forall|id: u64| pool.contains(id) implies id == pool[i] || rest.contains(id) by {
        let j = choose|j: int| 0 <= j < pool.len() && pool[j] == id;
        if j == i {
        } else if j == last {
            assert(rest[i] == id);
        } else {
            assert(rest[j] == id);
        }
    }
    assert forall|id: u64| rest.contains(id) implies pool.contains(id) && id != pool[i] by {
        let j = choose|j: int| 0 <= j < rest.len() && rest[j] == id;
        if j == i {
            assert(pool[last] == id);
        } else {
            assert(pool[j] == id);
        }
    }
}

/// No identifier is handed out twice. Draws from a pool without
/// repetitions hand out identifiers of the pool that differ from each
/// other and from all that stay; each draw that finds the pool filled takes
/// exactly one, so `k` draws from a pool of at least `k` leave `k` fewer.
pub proof fn lemma_draws_are_distinct(pool: Seq<u64>, entropy: Seq<u64>)
    requires
        pool.no_duplicates(),
    ensures
        drawn(pool, entropy).no_duplicates(),
        left(pool, entropy).no_duplicates(),
        drawn(pool, entropy).len() + left(pool, entropy).len() == pool.len(),
        entropy.len() <= pool.len() ==> drawn(pool, entropy).len() == entropy.len(),
        entropy.len() <= pool.len() ==> left(pool, entropy).len() == pool.len() - entropy.len(),
        entropy.len() >= pool.len() ==> left(pool, entropy).len() == 0,
        forall|id: u64|
            pool.contains(id) <==> drawn(pool, entropy).contains(id) || left(
                pool,
                entropy,
            ).contains(id),
        forall|id: u64|
            !(drawn(pool, entropy).contains(id) && left(pool, entropy).contains(id)),
    decreases entropy.len(),
{
    if entropy.len() > 0 {
        let shorter = entropy.drop_last();
        lemma_draws_are_distinct(pool, shorter);
        let before = left(pool, shorter);
        let earlier = drawn(pool, shorter);
        if before.len() > 0 {
            let i = pick(before, entropy.last());
            let id = before[i];
            lemma_without(before, i);
            let now = earlier.push(id);
            assert(before.contains(id));
            assert(!earlier.contains(id));
            assert forall|a: int, b: int| 0 <= a < now.len() && 0 <= b < now.len() && a
                != b implies now[a] != now[b] by {
                if a < earlier.len() {
                    assert(earlier.contains(now[a]));
                }
                if b < earlier.len() {
                    assert(earlier.contains(now[b]));
                }
            }
            assert forall|x: u64|
                (pool.contains(x) <==> now.contains(x) || without(before, i).contains(x)) && !(
                now.contains(x) && without(before, i).contains(x)) by {
                if now.contains(x) {
                    let j = choose|j: int| 0 <= j < now.len() && now[j] == x;
                    if j < earlier.len() {
                        assert(earlier.contains(x));
                    }
                }
                if earlier.contains(x) {
                    let j = choose|j: int| 0 <= j < earlier.len() && earlier[j] == x;
                    assert(now[j] == x);
                }
                if x == id {
                    assert(now[earlier.len() as int] == x);
                }
            }
        }
    }
}

/// The identifiers that were not handed out yet, held in an array from which
/// a draw takes one slot.
pub struct Raffle {
    ids: Vec<u64>,
    initial: u64,
}

impl View for Raffle {
    type V = Seq<u64>;

    /// The identifiers in the pool, by slot.
    closed spec fn view(&self) -> Seq<u64> {
        self.ids@
    }
}

impl Raffle {
    /// The number of identifiers the pool was made with.
    pub closed spec fn initial(&self) -> nat {
        self.initial as nat
    }

    /// The pool holds no identifier twice, and only identifiers below its
    /// initial size.
    pub open spec fn wf(&self) -> bool {
        &&& self@.no_duplicates()
        &&& self@.len() <= self.initial()
        &&& forall|i: int| 0 <= i < self@.len() ==> (#[trigger] self@[i]) < self.initial()
    }

    /// A pool of the identifiers `0..size`, in rising order.
    pub fn new(size: u64) -> (pool: Raffle)
        ensures
            pool.wf(),
            pool.initial() == size,
            pool@ == Seq::new(size as nat, |i: int| i as u64),
    {
        let mut ids: Vec<u64> = Vec::new();
        let mut next: u64 = 0;
        while next < size
            invariant
                next <= size,
                ids@ == Seq::new(next as nat, |i: int| i as u64),
            decreases size - next,
        {
            ids.push(next);
            next = next + 1;
        }
        Raffle { ids, initial: size }
    }

    /// The pool that holds the given identifiers in the given slots, made
    /// with `initial` identifiers, or `None` where an identifier stands
    /// twice, is not below `initial`, or there are more than `initial`.
    pub fn from_ids(ids: Vec<u64>, initial: u32) -> (r: Option<Raffle>)
        ensures
            match r {
                Some(pool) => pool.wf() && pool@ == ids@ && pool.initial() == initial,
                None => !(ids@.no_duplicates() && ids@.len() <= initial && forall|i: int|
                    0 <= i < ids@.len() ==> (#[trigger] ids@[i]) < initial),
            },
    {
        if ids.len() > initial as usize {
            return None;
        }
        let mut seen: Vec<bool> = Vec::new();
        let mut n: u32 = 0;
        while n < initial
            invariant
                n <= initial,
                seen@.len() == n,
                forall|j: int| 0 <= j < n ==> !(#[trigger] seen@[j]),
            decreases initial - n,
        {
            seen.push(false);
            n = n + 1;
        }
        let mut k: usize = 0;
        while k < ids.len()
            invariant
                k <= ids@.len(),
                seen@.len() == initial,
                forall|j: int|
                    0 <= j < initial ==> ((#[trigger] seen@[j]) <==> exists|a: int|
                        0 <= a < k && ids@[a] == j),
                forall|a: int, b: int| 0 <= a < b < k ==> ids@[a] != ids@[b],
                forall|a: int| 0 <= a < k ==> (#[trigger] ids@[a]) < initial,
            decreases ids@.len() - k,
        {
            let id = ids[k];
            if id >= initial as u64 {
                return None;
            }
            if seen[id as usize] {
                proof {
                    let a = choose|a: int| 0 <= a < k && ids@[a] == id;
                    assert(ids@[a] == ids@[k as int]);
                }
                return None;
            }
            let ghost before = seen@;
            seen.set(id as usize, true);
            proof {
                assert forall|j: int| 0 <= j < initial implies ((#[trigger] seen@[j])
                    <==> exists|a: int| 0 <= a < k + 1 && ids@[a] == j) by {
                    if j == id {
                        assert(ids@[k as int] == j);
                    } else {
                        if before[j] {
                            let a = choose|a: int| 0 <= a < k && ids@[a] == j;
                            assert(0 <= a < k + 1 && ids@[a] == j);
                        }
                        if exists|a: int| 0 <= a < k + 1 && ids@[a] == j {
                            let a = choose|a: int| 0 <= a < k + 1 && ids@[a] == j;
                            assert(a < k);
                            assert(before[j]);
                        }
                    }
                }
                assert forall|a: int, b: int| 0 <= a < b < k + 1 implies ids@[a] != ids@[b] by {
                    if b == k && ids@[a] == id {
                        assert(before[id as int]);
                    }
                }
            }
            k = k + 1;
        }
        Some(Raffle { ids, initial: initial as u64 })
    }

    /// The identifiers in the pool, by slot.
    pub fn ids(&self) -> (ids: Vec<u64>)
        ensures
            ids@ == self@,
    {
        let mut ids: Vec<u64> = Vec::new();
        let mut i: usize = 0;
        while i < self.ids.len()
            invariant
                i <= self.ids@.len(),
                ids@ == self.ids@.take(i as int),
            decreases self.ids@.len() - i,
        {
            ids.push(self.ids[i]);
            i = i + 1;
            assert(ids@ =~= self.ids@.take(i as int));
        }
        assert(self.ids@.take(i as int) =~= self.ids@);
        ids
    }

    /// How many identifiers are left.
    pub fn len(&self) -> (n: u64)
        ensures
            n == self@.len(),
    {
        self.ids.len() as u64
    }

    /// The number of identifiers the pool was made with.
    pub fn initial_len(&self) -> (n: u64)
        ensures
            n == self.initial(),
    {
        self.initial
    }

    /// Takes one identifier out of the pool, from the slot that `entropy`
    /// picks, and moves the last identifier into that slot. An empty pool
    /// is left as it is.
    pub fn draw(&mut self, entropy: u64) -> (r: Result<u64, Error>)
        requires
            old(self).wf(),
        ensures
            final(self).wf(),
            final(self).initial() == old(self).initial(),
            final(self)@ == left(old(self)@, seq![entropy]),
            old(self)@.len() == 0 ==> r == Err::<u64, Error>(Error::Exhausted) && final(self)@
                == old(self)@,
            old(self)@.len() > 0 ==> r == Ok::<u64, Error>(
                old(self)@[pick(old(self)@, entropy)],
            ) && final(self)@ == without(old(self)@, pick(old(self)@, entropy)),
            drawn(old(self)@, seq![entropy]) == match r {
                Ok(id) => seq![id],
                Err(_) => Seq::<u64>::empty(),
            },
    {
        proof {
            let one = seq![entropy];
            assert(one.drop_last() =~= Seq::<u64>::empty());
            assert(left(old(self)@, one.drop_last()) == old(self)@);
            assert(drawn(old(self)@, one.drop_last()) == Seq::<u64>::empty());
            assert(one.last() == entropy);
        }
        let n = self.ids.len();
        if n == 0 {
            return Err(Error::Exhausted);
        }
        let slot = (entropy % (n as u64)) as usize;
        proof {
            lemma_without(self.ids@, slot as int);
        }
        let id = self.ids.swap_remove(slot);
        proof {
            let rest = self.ids@;
            assert forall|i: int| 0 <= i < rest.len() implies (#[trigger] rest[i])
                < self.initial() by {
                assert(old(self)@.contains(rest[i]));
            }
            assert(Seq::<u64>::empty().push(id) =~= seq![id]);
        }
        Ok(id)
    }

    /// Draws `num` times by one seed, and hands out the identifiers in the
    /// order of the draws. Draws from an empty pool hand out nothing.
    pub fn draw_many(&mut self, seed: u64, num: u32) -> (ids: Vec<u64>)
        requires
            old(self).wf(),
        ensures
            final(self).wf(),
            final(self).initial() == old(self).initial(),
            final(self)@ == left(old(self)@, seeds(seed, num as nat)),
            ids@ == drawn(old(self)@, seeds(seed, num as nat)),
            num <= old(self)@.len() ==> ids@.len() == num && final(self)@.len() == old(self)@.len()
                - num,
    {
        let mut ids: Vec<u64> = Vec::new();
        let mut done: u32 = 0;
        while done < num
            invariant
                done <= num,
                self.wf(),
                self.initial() == old(self).initial(),
                self@ == left(old(self)@, seeds(seed, done as nat)),
                ids@ == drawn(old(self)@, seeds(seed, done as nat)),
            decreases num - done,
        {
            proof {
                let more = seeds(seed, (done + 1) as nat);
                assert(more.drop_last() =~= seeds(seed, done as nat));
                assert(more.last() == seed);
            }
            match self.draw(seed) {
                Ok(id) => {
                    ids.push(id);
                },
                Err(_) => {},
            }
            done = done + 1;
        }
        proof {
            lemma_draws_are_distinct(old(self)@, seeds(seed, num as nat));
        }
        ids
    }
}

} // verus!
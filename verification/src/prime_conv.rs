//! Prime kernel sizes for the prime-sized convolution block: the prime
//! generator that picks them.

use vstd::prelude::*;
use crate::sieve::at_most;
use crate::sieve::is_prime;
use crate::sieve::primes_upto;
use crate::sieve::sieve_marks;

verus! {

/// Prime number generator for OS-block kernel sizes.
#[derive(Debug, Clone)]
pub struct PrimeGenerator {
    primes: Vec<usize>,
    current_index: usize,
}

/// The integers of a list of sizes.
pub open spec fn as_ints(s: Seq<usize>) -> Seq<int> {
    s.map_values(|p: usize| p as int)
}

impl PrimeGenerator {
    /// The primes the generator holds, in increasing order.
    pub closed spec fn primes_view(&self) -> Seq<int> {
        as_ints(self.primes@)
    }

    /// How many primes `next_prime` has handed out so far.
    pub closed spec fn cursor(&self) -> nat {
        self.current_index as nat
    }

    /// The prime at `index`, counting cyclically through the list.
    pub open spec fn prime_at(&self, index: int) -> int {
        self.primes_view()[index % self.primes_view().len() as int]
    }

    /// A generator holding the primes up to `max_prime`.
    pub fn new(max_prime: usize) -> (r: Self)
        requires
            max_prime < usize::MAX,
        ensures
            r.primes_view() == primes_upto(max_prime as int),
            r.cursor() == 0,
    {
        let primes = Self::sieve(max_prime);
        PrimeGenerator { primes, current_index: 0 }
    }

    /// The primes up to `max`, in increasing order.
    fn sieve(max: usize) -> (primes: Vec<usize>)
        requires
            max < usize::MAX,
        ensures
            as_ints(primes@) == primes_upto(max as int),
    {
        if max < 2 {
            return Vec::new();
        }
        let marks = sieve_marks(max);
        let mut primes: Vec<usize> = Vec::new();
        let mut k: usize = 0;
        while k <= max
            invariant
                k <= max + 1,
                max < usize::MAX,
                marks@.len() == max + 1,
                forall|j: int| 0 <= j <= max ==> marks@[j] == is_prime(j),
                as_ints(primes@) == primes_upto(k - 1),
            decreases max + 1 - k,
        {
            let ghost before = primes@;
            if marks[k] {
                primes.push(k);
                assert(primes@ == before.push(k));
                assert(as_ints(primes@) =~= as_ints(before).push(k as int));
            }
            assert(primes_upto(k as int) == if k >= 2 && is_prime(k as int) {
                primes_upto(k - 1).push(k as int)
            } else {
                primes_upto(k - 1)
            });
            k += 1;
        }
        primes
    }

    /// Get the next prime number in the sequence, cycling through the list.
    pub fn next_prime(&mut self) -> (p: usize)
        requires
            old(self).primes_view().len() > 0,
            old(self).cursor() < usize::MAX,
        ensures
            p == old(self).prime_at(old(self).cursor() as int),
            final(self).primes_view() == old(self).primes_view(),
            final(self).cursor() == old(self).cursor() + 1,
    {
        let prime = self.primes[self.current_index % self.primes.len()];
        self.current_index += 1;
        prime
    }

    /// The held primes that are at most `max`, in increasing order.
    pub fn primes_up_to(&self, max: usize) -> (r: Vec<usize>)
        ensures
            as_ints(r@) == at_most(self.primes_view(), max as int),
    {
        let mut r: Vec<usize> = Vec::new();
        let mut k: usize = 0;
        while k < self.primes.len()
            invariant
                k <= self.primes@.len(),
                as_ints(r@) == at_most(as_ints(self.primes@.subrange(0, k as int)), max as int),
            decreases self.primes@.len() - k,
        {
            let ghost before = r@;
            let p = self.primes[k];
            let ghost prefix = as_ints(self.primes@.subrange(0, k as int));
            let ghost next = as_ints(self.primes@.subrange(0, k + 1));
            assert(next.drop_last() =~= prefix);
            assert(next.last() == p as int);
            if p <= max {
                r.push(p);
                assert(as_ints(r@) =~= as_ints(before).push(p as int));
            }
            k += 1;
        }
        assert(self.primes@.subrange(0, self.primes@.len() as int) =~= self.primes@);
        r
    }

    /// All the primes held, in increasing order.
    pub fn prime_list(&self) -> (r: &[usize])
        ensures
            as_ints(r@) == self.primes_view(),
    {
        self.primes.as_slice()
    }

    /// How many primes `next_prime` has handed out so far.
    pub fn index(&self) -> (i: usize)
        ensures
            i == self.cursor(),
    {
        self.current_index
    }

    /// The prime at `index` repeats every `primes_view().len()` steps.
    pub proof fn lemma_prime_at_periodic(&self, index: int)
        requires
            self.primes_view().len() > 0,
            index >= 0,
        ensures
            self.prime_at(index + self.primes_view().len()) == self.prime_at(index),
    {
        let n = self.primes_view().len() as int;
        vstd::arithmetic::div_mod::lemma_mod_add_multiples_vanish(index, n);
    }
}

impl Default for PrimeGenerator {
    /// The primes up to 1000.
    fn default() -> (r: Self)
        ensures
            r.primes_view() == primes_upto(1000),
            r.cursor() == 0,
    {
        Self::new(1000)
    }
}

} // verus!

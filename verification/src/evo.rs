//! The prime generator behind the prime-indexed mutation strategy of the
//! evolutionary optimizer.

use vstd::prelude::*;
use crate::sieve::is_prime;
use crate::sieve::primes_upto;
use crate::sieve::sieve_marks;

verus! {

/// Prime number generator for prime-indexed mutation strategies: the primes up
/// to a limit, handed out cyclically.
pub struct PrimeGenerator {
    primes: Vec<u32>,
    current_index: usize,
}

impl PrimeGenerator {
    /// The primes the generator holds, in increasing order.
    pub closed spec fn primes_view(&self) -> Seq<int> {
        self.primes@.map_values(|p: u32| p as int)
    }

    /// How many primes `next_prime` has handed out so far.
    pub closed spec fn cursor(&self) -> nat {
        self.current_index as nat
    }

    /// The prime at `index`, counting cyclically through the list.
    pub open spec fn prime_at(&self, index: int) -> int {
        self.primes_view()[index % self.primes_view().len() as int]
    }

    /// Initialize with the list of primes up to `limit`.
    pub fn new(limit: u32) -> (r: Self)
        requires
            1 <= limit < u32::MAX,
        ensures
            r.primes_view() == primes_upto(limit as int),
            r.cursor() == 0,
    {
        let max = limit as usize;
        let marks = sieve_marks(max);
        let mut primes: Vec<u32> = Vec::new();
        let mut k: usize = 0;
        while k <= max
            invariant
                k <= max + 1,
                max == limit,
                limit < u32::MAX,
                marks@.len() == max + 1,
                forall|j: int| 0 <= j <= max ==> marks@[j] == is_prime(j),
                primes@.map_values(|p: u32| p as int) == primes_upto(k - 1),
            decreases max + 1 - k,
        {
            let ghost before = primes@;
            if marks[k] {
                primes.push(k as u32);
                assert(primes@ == before.push(k as u32));
                assert(primes@.map_values(|p: u32| p as int) =~= before.map_values(
                    |p: u32| p as int,
                ).push(k as int));
            }
            assert(primes_upto(k as int) == if k >= 2 && is_prime(k as int) {
                primes_upto(k - 1).push(k as int)
            } else {
                primes_upto(k - 1)
            });
            k += 1;
        }
        PrimeGenerator { primes, current_index: 0 }
    }

    /// Number of primes held.
    pub fn prime_count(&self) -> (n: usize)
        ensures
            n == self.primes_view().len(),
    {
        self.primes.len()
    }

    /// How many primes `next_prime` has handed out so far.
    pub fn index(&self) -> (i: usize)
        ensures
            i == self.cursor(),
    {
        self.current_index
    }

    /// Get the next prime number in the sequence.
    pub fn next_prime(&mut self) -> (p: u32)
        requires
            old(self).primes_view().len() > 0,
            old(self).cursor() < usize::MAX,
        ensures
            p == old(self).prime_at(old(self).cursor() as int),
            final(self).primes_view() == old(self).primes_view(),
            final(self).cursor() == old(self).cursor() + 1,
    {
        let prime = self.primes[self.current_index % self.primes.len()];
        self.current_index += 1;
        prime
    }

    /// Get a prime at a specific index, counting cyclically.
    pub fn nth(&self, index: usize) -> (p: u32)
        requires
            self.primes_view().len() > 0,
        ensures
            p == self.prime_at(index as int),
    {
        self.primes[index % self.primes.len()]
    }

    /// The prime at `index` repeats every `primes_view().len()` steps.
    pub proof fn lemma_prime_at_periodic(&self, index: int)
        requires
            self.primes_view().len() > 0,
            index >= 0,
        ensures
            self.prime_at(index + self.primes_view().len()) == self.prime_at(index),
    {
        let n = self.primes_view().len() as int;
        vstd::arithmetic::div_mod::lemma_mod_add_multiples_vanish(index, n);
    }
}

impl Default for PrimeGenerator {
    /// The primes up to 1000.
    fn default() -> (r: Self)
        ensures
            r.primes_view() == primes_upto(1000),
            r.cursor() == 0,
    {
        Self::new(1000)
    }
}

} // verus!

//! The sieve of Eratosthenes shared by the prime generators, with the
//! mathematical definition of the primes it finds.

use vstd::prelude::*;
use vstd::arithmetic::div_mod::lemma_fundamental_div_mod;
use vstd::arithmetic::div_mod::lemma_mod_multiples_basic;

verus! {

/// `d` divides `n`.
pub open spec fn divides(d: int, n: int) -> bool {
    n % d == 0
}

/// `n` is prime: at least 2, and no number in `[2, n)` divides it.
pub open spec fn is_prime(n: int) -> bool {
    &&& n >= 2
    &&& forall|d: int| 2 <= d < n ==> !#[trigger] divides(d, n)
}

/// The primes in `[2, n]`, in increasing order.
pub open spec fn primes_upto(n: int) -> Seq<int>
    decreases n,
{
    if n < 2 {
        Seq::empty()
    } else if is_prime(n) {
        primes_upto(n - 1).push(n)
    } else {
        primes_upto(n - 1)
    }
}

/// `n` is at least 2 and has no divisor in `[2, i)` below itself: what the
/// sieve still marks after crossing out the multiples of every number below `i`.
pub open spec fn survives(n: int, i: int) -> bool {
    &&& n >= 2
    &&& forall|d: int| 2 <= d < i && d < n ==> !#[trigger] divides(d, n)
}

proof fn lemma_divides_trans(d: int, i: int, k: int)
    requires
        0 < d,
        0 < i,
        divides(d, i),
        divides(i, k),
    ensures
        divides(d, k),
{
    lemma_fundamental_div_mod(i, d);
    lemma_fundamental_div_mod(k, i);
    let p = i / d;
    let q = k / i;
    assert(k == (p * q) * d) by (nonlinear_arith)
        requires
            i == d * p,
            k == i * q,
    ;
    lemma_mod_multiples_basic(p * q, d);
}

/// A multiple `k > i` of `i` that has no divisor below `i` is at least `i * i`.
proof fn lemma_cofactor_bound(k: int, i: int)
    requires
        2 <= i < k,
        divides(i, k),
        survives(k, i),
    ensures
        i * i <= k,
{
    lemma_fundamental_div_mod(k, i);
    let m = k / i;
    assert(k == i * m);
    assert(m >= 2) by (nonlinear_arith)
        requires
            k == i * m,
            k > i,
            i >= 2,
    ;
    if m < i {
        lemma_mod_multiples_basic(i, m);
        assert(m < k) by (nonlinear_arith)
            requires
                k == i * m,
                i >= 2,
                m >= 2,
        ;
        assert(divides(m, k));
        assert(false);
    }
    assert(i * i <= k) by (nonlinear_arith)
        requires
            k == i * m,
            m >= i,
            i >= 2,
    ;
}

/// Once the multiples of every number below `i` are crossed out and `i * i`
/// exceeds `k`, the numbers that survive are exactly the primes.
proof fn lemma_survivor_is_prime(k: int, i: int)
    requires
        2 <= i,
        k < i * i,
    ensures
        survives(k, i) <==> is_prime(k),
{
    if survives(k, i) {
        assert forall|d: int| 2 <= d < k implies !#[trigger] divides(d, k) by {
            if divides(d, k) && d >= i {
                lemma_fundamental_div_mod(k, d);
                let e = k / d;
                assert(k == d * e);
                assert(2 <= e && e < i && e < k) by (nonlinear_arith)
                    requires
                        k == d * e,
                        2 <= d < k,
                        d >= i,
                        k < i * i,
                        i >= 2,
                ;
                lemma_mod_multiples_basic(d, e);
                assert(divides(e, k));
            }
        }
    }
}

/// Marks, for every number in `[0, max]`, whether it is prime.
pub fn sieve_marks(max: usize) -> (marks: Vec<bool>)
    requires
        max < usize::MAX,
    ensures
        marks@.len() == max + 1,
        forall|k: int| 0 <= k <= max ==> marks@[k] == is_prime(k),
{
    let mut marks: Vec<bool> = Vec::new();
    let mut k: usize = 0;
    while k <= max
        invariant
            k <= max + 1,
            max < usize::MAX,
            marks@.len() == k,
            forall|j: int| 0 <= j < k ==> marks@[j] == survives(j, 2),
        decreases max + 1 - k,
    {
        marks.push(k >= 2);
        k += 1;
    }
    let mut i: usize = 2;
    while i <= max / i
        invariant
            2 <= i <= max + 2,
            max < usize::MAX,
            marks@.len() == max + 1,
            forall|j: int| 0 <= j <= max ==> marks@[j] == survives(j, i as int),
        decreases max + 2 - i,
    {
        assert(i * i <= max) by (nonlinear_arith)
            requires
                i <= max / i,
                i >= 2,
        ;
        if marks[i] {
            let mut j: usize = i * i;
            proof {
                lemma_mod_multiples_basic(i as int, i as int);
            }
            loop
                invariant_except_break
                    i * i <= j <= max,
                    divides(i as int, j as int),
                    forall|k: int|
                        0 <= k <= max ==> marks@[k] == (survives(k, i as int) && !(i * i <= k < j
                            && divides(i as int, k))),
                invariant
                    2 <= i,
                    i * i <= max,
                    max < usize::MAX,
                    marks@.len() == max + 1,
                ensures
                    forall|k: int|
                        0 <= k <= max ==> marks@[k] == (survives(k, i as int) && !(i * i <= k
                            && divides(i as int, k))),
                decreases max - j,
            {
                marks.set(j, false);
                if max - j < i {
                    assert forall|k: int| j < k <= max implies !divides(i as int, k) by {
                        lemma_fundamental_div_mod(k, i as int);
                        lemma_fundamental_div_mod(j as int, i as int);
                        let qk = k / (i as int);
                        let qj = (j as int) / (i as int);
                        if divides(i as int, k) {
                            assert(false) by (nonlinear_arith)
                                requires
                                    k == i * qk,
                                    j == i * qj,
                                    j < k,
                                    k - j < i,
                                    i >= 2,
                            ;
                        }
                    }
                    break;
                }
                proof {
                    lemma_fundamental_div_mod(j as int, i as int);
                    let q = (j as int) / (i as int);
                    assert(j + i == i * (q + 1)) by (nonlinear_arith)
                        requires
                            j == i * q,
                    ;
                    lemma_mod_multiples_basic(q + 1, i as int);
                    assert forall|k: int| j < k < j + i implies !divides(i as int, k) by {
                        lemma_fundamental_div_mod(k, i as int);
                        let qk = k / (i as int);
                        if divides(i as int, k) {
                            assert(false) by (nonlinear_arith)
                                requires
                                    k == i * qk,
                                    j == i * q,
                                    j < k < j + i,
                                    i >= 2,
                            ;
                        }
                    }
                }
                j = j + i;
            }
            assert forall|k: int| 0 <= k <= max implies marks@[k] == survives(k, i + 1) by {
                assert(i * i > i) by (nonlinear_arith)
                    requires
                        i >= 2,
                ;
                if survives(k, i as int) && (i as int) < k && divides(i as int, k) {
                    lemma_cofactor_bound(k, i as int);
                    assert(i * i <= k);
                }
                assert(survives(k, i + 1) == (survives(k, i as int) && !((i as int) < k && divides(
                    i as int,
                    k,
                ))));
            }
        } else {
            assert(!survives(i as int, i as int));
            assert forall|k: int| 0 <= k <= max implies marks@[k] == survives(k, i + 1) by {
                if survives(k, i as int) && (i as int) < k && divides(i as int, k) {
                    let d = choose|d: int| 2 <= d < i && d < i && #[trigger] divides(d, i as int);
                    lemma_divides_trans(d, i as int, k);
                }
                assert(survives(k, i + 1) == (survives(k, i as int) && !((i as int) < k && divides(
                    i as int,
                    k,
                ))));
            }
        }
        i += 1;
    }
    assert forall|k: int| 0 <= k <= max implies marks@[k] == is_prime(k) by {
        assert(max < i * i) by (nonlinear_arith)
            requires
                i > max / i,
                i >= 2,
        ;
        lemma_survivor_is_prime(k, i as int);
    }
    marks
}

/// The elements of `s` that are at most `m`, in their order in `s`.
pub open spec fn at_most(s: Seq<int>, m: int) -> Seq<int>
    decreases s.len(),
{
    if s.len() == 0 {
        s
    } else if s.last() <= m {
        at_most(s.drop_last(), m).push(s.last())
    } else {
        at_most(s.drop_last(), m)
    }
}

/// `primes_upto(n)` holds exactly the primes in `[2, n]`.
pub proof fn lemma_primes_upto_members(n: int, k: int)
    ensures
        primes_upto(n).contains(k) <==> (2 <= k <= n && is_prime(k)),
    decreases n,
{
    if n >= 2 {
        lemma_primes_upto_members(n - 1, k);
        if is_prime(n) {
            assert(primes_upto(n) == primes_upto(n - 1).push(n));
            if k == n {
                assert(primes_upto(n)[primes_upto(n).len() - 1] == k);
            } else if primes_upto(n).contains(k) {
                let j = choose|j: int| 0 <= j < primes_upto(n).len() && #[trigger] primes_upto(n)[j] == k;
                assert(primes_upto(n - 1)[j] == k);
            } else if primes_upto(n - 1).contains(k) {
                let j = choose|j: int| 0 <= j < primes_upto(n - 1).len() && #[trigger] primes_upto(n - 1)[j] == k;
                assert(primes_upto(n)[j] == k);
            }
        }
    }
}

/// Every element of `primes_upto(n)` lies in `[2, n]`, and the list is strictly increasing.
pub proof fn lemma_primes_upto_increasing(n: int)
    ensures
        forall|j: int| 0 <= j < primes_upto(n).len() ==> 2 <= #[trigger] primes_upto(n)[j] <= n,
        forall|a: int, b: int|
            0 <= a < b < primes_upto(n).len() ==> #[trigger] primes_upto(n)[a] < #[trigger] primes_upto(n)[b],
    decreases n,
{
    if n >= 2 {
        lemma_primes_upto_increasing(n - 1);
        let s = primes_upto(n - 1);
        if is_prime(n) {
            let t = s.push(n);
            assert(primes_upto(n) == t);
            assert forall|j: int| 0 <= j < t.len() implies 2 <= #[trigger] t[j] <= n by {
                if j < s.len() {
                    assert(t[j] == s[j]);
                }
            }
            assert forall|a: int, b: int| 0 <= a < b < t.len() implies #[trigger] t[a] < #[trigger] t[b] by {
                assert(t[a] == s[a]);
                if b < s.len() {
                    assert(t[b] == s[b]);
                }
            }
        } else {
            assert(primes_upto(n) == s);
        }
    }
}

/// `primes_upto(n)` has length at least 1 from `n = 2` on, and starts with 2.
pub proof fn lemma_primes_upto_starts_with_two(n: int)
    requires
        n >= 2,
    ensures
        primes_upto(n).len() >= 1,
        primes_upto(n)[0] == 2,
    decreases n,
{
    if n == 2 {
        assert(is_prime(2));
        assert(primes_upto(1) == Seq::<int>::empty());
    } else {
        lemma_primes_upto_starts_with_two(n - 1);
    }
}

/// Keeping the primes up to `m` of the primes up to `n` gives the primes up to `min(n, m)`.
pub proof fn lemma_at_most_primes_upto(n: int, m: int)
    ensures
        at_most(primes_upto(n), m) == primes_upto(if n <= m { n } else { m }),
    decreases n,
{
    if n >= 2 {
        lemma_at_most_primes_upto(n - 1, m);
        lemma_primes_upto_increasing(n - 1);
        if is_prime(n) {
            assert(primes_upto(n).drop_last() == primes_upto(n - 1));
        } else if m < n {
            assert(primes_upto(m) == primes_upto(if n - 1 <= m { n - 1 } else { m }));
        }
    } else {
        assert(primes_upto(n) == Seq::<int>::empty());
        assert(at_most(primes_upto(n), m) == Seq::<int>::empty());
        if m < n {
            assert(primes_upto(m) == Seq::<int>::empty());
        }
    }
}

} // verus!

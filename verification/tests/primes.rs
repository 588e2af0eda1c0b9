use cadsd::evo::PrimeGenerator as MutationPrimes;
use cadsd::prime_conv::PrimeGenerator;

#[test]
fn test_prime_generator() {
    let gen = PrimeGenerator::new(100);
    assert_eq!(gen.primes_up_to(10), vec![2, 3, 5, 7]);
}

#[test]
fn mod_test_prime_generator() {
    let mut gen = MutationPrimes::new(1000);
    assert_eq!(gen.next_prime(), 2);
    assert_eq!(gen.next_prime(), 3);
    assert_eq!(gen.next_prime(), 5);
    assert_eq!(gen.next_prime(), 7);
}

#[test]
fn sieve_lists_exactly_the_primes_up_to_the_limit() {
    let gen = PrimeGenerator::new(30);
    assert_eq!(gen.prime_list(), &[2, 3, 5, 7, 11, 13, 17, 19, 23, 29]);
    let gen = PrimeGenerator::new(29);
    assert_eq!(gen.prime_list().last(), Some(&29));
    let gen = PrimeGenerator::new(28);
    assert_eq!(gen.prime_list().last(), Some(&23));
}

#[test]
fn sieve_below_two_is_empty() {
    assert!(PrimeGenerator::new(0).prime_list().is_empty());
    assert!(PrimeGenerator::new(1).prime_list().is_empty());
    assert_eq!(PrimeGenerator::new(2).prime_list(), &[2]);
    assert_eq!(MutationPrimes::new(1).prime_count(), 0);
}

#[test]
fn default_generators_hold_the_primes_below_one_thousand() {
    let gen = PrimeGenerator::default();
    assert_eq!(gen.prime_list().len(), 168);
    assert_eq!(gen.prime_list()[167], 997);
    let gen = MutationPrimes::default();
    assert_eq!(gen.prime_count(), 168);
    assert_eq!(gen.nth(167), 997);
}

#[test]
fn nth_counts_cyclically() {
    let gen = MutationPrimes::new(10);
    assert_eq!(gen.prime_count(), 4);
    assert_eq!(gen.nth(0), 2);
    assert_eq!(gen.nth(3), 7);
    assert_eq!(gen.nth(4), 2);
    assert_eq!(gen.nth(9), 3);
}

#[test]
fn next_prime_wraps_around_and_advances_the_index() {
    let mut gen = PrimeGenerator::new(5);
    assert_eq!(gen.next_prime(), 2);
    assert_eq!(gen.next_prime(), 3);
    assert_eq!(gen.next_prime(), 5);
    assert_eq!(gen.next_prime(), 2);
    assert_eq!(gen.index(), 4);
    let mut gen = MutationPrimes::new(3);
    assert_eq!(gen.next_prime(), 2);
    assert_eq!(gen.next_prime(), 3);
    assert_eq!(gen.next_prime(), 2);
    assert_eq!(gen.index(), 3);
}

#[test]
fn primes_up_to_keeps_the_small_primes() {
    let gen = PrimeGenerator::new(50);
    assert_eq!(gen.primes_up_to(0), Vec::<usize>::new());
    assert_eq!(gen.primes_up_to(2), vec![2]);
    assert_eq!(gen.primes_up_to(1000), gen.prime_list().to_vec());
    let small = PrimeGenerator::new(13);
    assert_eq!(gen.primes_up_to(13), small.prime_list().to_vec());
}

#[test]
fn listing_primes_up_to_one_hundred() {
    let argv: Vec<String> = ["cli", "primes", "list", "--max", "100"].iter().map(|s| s.to_string()).collect();
    let options = cadsd::cli::parse_primes_list_args(&argv);
    let generator = PrimeGenerator::new(options.max_prime);
    let primes = generator.prime_list();
    assert_eq!(primes.len(), 25);
    assert_eq!(primes[..5], [2, 3, 5, 7, 11]);
    assert_eq!(primes[24], 97);
}

#[test]
fn prime_kernels_up_to_seventeen() {
    let argv: Vec<String> = ["cli", "ml", "primes", "--max-prime", "17", "--input", "10"].iter().map(|s| s.to_string()).collect();
    let options = cadsd::cli::parse_ml_primes_args(&argv);
    assert_eq!(options.input_len, 10);
    let generator = PrimeGenerator::new(options.max_prime);
    assert_eq!(*generator.prime_list(), vec![2, 3, 5, 7, 11, 13, 17]);
}

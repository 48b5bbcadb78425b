use solana_mint_generator::errors::VanityError;
use solana_mint_generator::predicate::ends_with_suffix;
use solana_mint_generator::search::{
    find_address_with_budget, find_address_with_suffix, Race,
};

const BASE58: &[u8] = b"123456789ABCDEFGHJKLMNPQRSTUVWXYZabcdefghijkmnopqrstuvwxyz";

#[test]
fn single_worker_returns_one_match() {
    let suffix: Vec<u8> = Vec::new();
    let rep = find_address_with_suffix(&suffix, 1).expect("an empty suffix is satisfiable");
    assert!(ends_with_suffix(&rep.winner.address, &suffix));
    assert!(rep.total_attempts >= 1);
    assert_eq!(rep.workers.len(), 1);
}

#[test]
fn pool_counter_is_sum_of_local_counts() {
    let suffix: Vec<u8> = Vec::new();
    let rep = find_address_with_suffix(&suffix, 4).expect("an empty suffix is satisfiable");
    let local_sum: u64 = rep.workers.iter().map(|w| w.attempts).sum();
    assert_eq!(rep.total_attempts, local_sum);
    assert!(rep.total_attempts >= 1);
    assert_eq!(rep.workers.len(), 4);
}

#[test]
fn exactly_one_worker_delivers() {
    let suffix: Vec<u8> = Vec::new();
    let rep = find_address_with_suffix(&suffix, 8).expect("an empty suffix is satisfiable");
    let deliveries = rep.workers.iter().filter(|w| w.delivered).count();
    assert_eq!(deliveries, 1);
    assert!(rep.workers.iter().all(|w| !w.running));
}

#[test]
fn one_char_suffix_is_found_and_matches() {
    let suffix = b"p".to_vec();
    let rep = find_address_with_suffix(&suffix, 2).expect("a base58 letter is satisfiable");
    assert_eq!(*rep.winner.address.last().unwrap(), b'p');
    assert_eq!(rep.winner.secret.len(), 64);
}

#[test]
fn winner_address_is_base58_text() {
    let suffix: Vec<u8> = Vec::new();
    let rep = find_address_with_suffix(&suffix, 1).expect("search succeeds");
    assert!(!rep.winner.address.is_empty());
    assert!(rep.winner.address.iter().all(|b| BASE58.contains(b)));
}

#[test]
fn fresh_addresses_differ_between_searches() {
    let suffix: Vec<u8> = Vec::new();
    let a = find_address_with_suffix(&suffix, 1).expect("search succeeds");
    let b = find_address_with_suffix(&suffix, 1).expect("search succeeds");
    assert_ne!(a.winner.address, b.winner.address);
}

#[test]
fn zero_budget_is_exhausted_without_a_trial() {
    let suffix: Vec<u8> = Vec::new();
    let r = find_address_with_budget(&suffix, 3, 0);
    assert_eq!(r.err().unwrap(), VanityError::SearchExhausted);
}

#[test]
fn tiny_budget_exhausts_an_unsatisfiable_suffix() {
    // `0` is outside the base58 alphabet, so no derived address ever ends
    // with it and the budget runs out.
    let suffix = b"0".to_vec();
    let r = find_address_with_budget(&suffix, 2, 50);
    assert_eq!(r.err().unwrap(), VanityError::SearchExhausted);
}

#[test]
fn generous_budget_succeeds() {
    let suffix: Vec<u8> = Vec::new();
    let rep = find_address_with_budget(&suffix, 2, 1_000_000).expect("budget suffices");
    assert!(rep.total_attempts <= 1_000_000);
}

#[test]
fn race_starts_clear_and_cancels_after_a_win() {
    let suffix: Vec<u8> = Vec::new();
    let mut race = Race::new(&suffix, 2);
    assert!(!race.found);
    assert_eq!(race.counter, 0);
    assert!(race.slot.is_none());
    // Worker 0 trials once; the empty suffix matches immediately, so it
    // sets the flag and delivers.
    race.step(0);
    assert!(race.found);
    assert_eq!(race.counter, 1);
    assert!(race.slot.is_some());
    assert!(race.workers[0].delivered);
    assert!(!race.workers[0].running);
    // Worker 1 observes the flag and exits without a trial or a delivery.
    race.step(1);
    assert_eq!(race.counter, 1);
    assert!(!race.workers[1].running);
    assert!(!race.workers[1].delivered);
}

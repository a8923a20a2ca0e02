use nutblaster::clock::{time_since, SECOND};
use nutblaster::protocol::payloads::Kick;
use nutblaster::tokens::TokenBucket;

#[test]
fn a_burst_can_be_spent_at_once() {
    let mut b = TokenBucket::new("x", 2, 3, 4, 0);
    assert!(b.take(4, 0));
    assert!(!b.take(1, 0));
    assert!(b.take(0, 0));
}

#[test]
fn a_refusal_names_the_budget() {
    let mut b = TokenBucket::new("relays", 5, 5, 40, 0);
    assert!(b.try_take(40, 0).is_ok());
    assert_eq!(
        b.try_take(1, 0),
        Err(Kick::violation("rate_limited", "Bandwidth patrol! (relays)"))
    );
}

#[test]
fn tokens_come_in_at_the_rate() {
    let mut b = TokenBucket::new("x", 2, 3, 0, 0);
    assert!(!b.take(1, SECOND / 2 - 1));
    assert!(b.take(1, SECOND / 2));
    // half a second is worth one token, whatever was asked in between
    assert!(!b.take(1, SECOND / 2 + SECOND / 4));
    assert!(b.take(1, SECOND));
}

#[test]
fn a_bucket_refills_up_to_its_maximum() {
    let mut b = TokenBucket::new("x", 2, 3, 0, 0);
    assert!(!b.take(4, 100 * SECOND));
    assert!(b.take(3, 100 * SECOND));
    assert!(!b.take(1, 100 * SECOND));
}

#[test]
fn nothing_comes_in_while_the_burst_lasts() {
    let mut b = TokenBucket::new("x", 2, 3, 10, 0);
    assert!(b.take(6, 100 * SECOND));
    // four are left, more than the maximum
    assert!(b.take(1, 200 * SECOND));
    assert!(b.take(3, 200 * SECOND));
    assert!(!b.take(1, 200 * SECOND));
}

#[test]
fn metadata_budgets() {
    let mut b = TokenBucket::new_metadata("x", 0);
    assert!(b.take(8192, 0));
    assert!(!b.take(4097, SECOND));
    assert!(b.take(4096, SECOND));
}

#[test]
fn a_refused_request_is_free() {
    let mut b = TokenBucket::new("x", 1, 5, 5, 0);
    assert!(!b.take(6, 0));
    assert!(b.take(5, 0));
}

#[test]
fn the_rate_is_kept_over_many_requests() {
    let mut b = TokenBucket::new("x", 7, 7, 20, 0);
    let mut taken: u64 = 0;
    for i in 0..1000u64 {
        if b.take(1, i * (SECOND / 100)) {
            taken += 1;
        }
    }
    assert!(taken <= 20 + 7 * 10);
    assert!(taken >= 80);
}

#[test]
fn time_does_not_run_backwards() {
    assert_eq!(time_since(3, 10), 7);
    assert_eq!(time_since(10, 3), 0);
    let mut b = TokenBucket::new("x", 1, 5, 0, 10 * SECOND);
    assert!(!b.take(1, 0));
}

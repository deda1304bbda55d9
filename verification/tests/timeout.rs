use kitsune_core::error::KitsuneError;
use kitsune_core::timeout::{race_outcome, KitsuneTimeout};

#[test]
fn basic_kitsune_timeout() {
    let t = KitsuneTimeout::new(40).unwrap();
    assert!(t.time_remaining() > 0);
    assert!(!t.is_expired());
}

#[test]
fn expired_kitsune_timeout() {
    // A deadline one millisecond out, observed two milliseconds later.
    let t = KitsuneTimeout::at(1_000, 1).unwrap();
    assert!(t.time_remaining_at(1_002) == 0);
    assert!(t.is_expired_at(1_002));
}

#[test]
fn from_millis_behaves_like_new() {
    let t = KitsuneTimeout::from_millis(60_000).unwrap();
    assert!(!t.is_expired());
    assert!(t.ok().is_ok());
}

#[test]
fn fresh_deadline_unexpired_then_expired() {
    // Created from a positive duration: not expired at creation time,
    // expired at any later reading past the deadline.
    let t = KitsuneTimeout::at(500, 100).unwrap();
    assert!(!t.is_expired_at(500));
    assert!(!t.is_expired_at(599));
    assert!(t.is_expired_at(600));
    assert!(t.is_expired_at(601));
}

#[test]
fn time_remaining_saturates_to_zero() {
    let t = KitsuneTimeout::at(100, 50).unwrap();
    assert_eq!(t.time_remaining_at(100), 50);
    assert_eq!(t.time_remaining_at(149), 1);
    assert_eq!(t.time_remaining_at(150), 0);
    assert_eq!(t.time_remaining_at(u64::MAX), 0);
}

#[test]
fn ok_at_is_exact() {
    let t = KitsuneTimeout::at(100, 50).unwrap();
    assert_eq!(t.ok_at(149), Ok(()));
    assert_eq!(t.ok_at(150), Err(KitsuneError::TimedOut));
}

#[test]
fn deadline_construction_overflow_is_fatal() {
    assert_eq!(
        KitsuneTimeout::at(u64::MAX, 1).unwrap_err(),
        KitsuneError::ClockError
    );
    // The wall clock is past the epoch, so the largest duration cannot fit.
    assert_eq!(
        KitsuneTimeout::new(u64::MAX).unwrap_err(),
        KitsuneError::ClockError
    );
}

#[test]
fn race_returns_winner_result() {
    // The operation finished first: its result comes back, success or not.
    assert_eq!(race_outcome::<u32>(Some(Ok(7))), Ok(7));
    assert_eq!(
        race_outcome::<u32>(Some(Err(KitsuneError::Bootstrap("server said no".to_string())))),
        Err(KitsuneError::Bootstrap("server said no".to_string()))
    );
}

#[test]
fn race_times_out_when_deadline_fires_first() {
    assert_eq!(race_outcome::<u32>(None), Err(KitsuneError::TimedOut));
}

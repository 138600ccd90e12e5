use vesting::schedule::{claimable_amount, unlocked_amount};

#[test]
fn nothing_before_cliff() {
    assert_eq!(unlocked_amount(50, 0, 1000, 100, 1000), 0);
    assert_eq!(unlocked_amount(99, 0, 1000, 100, 1000), 0);
    assert_eq!(unlocked_amount(i64::MIN, 0, 1000, 100, 1000), 0);
}

#[test]
fn everything_from_end_time_on() {
    assert_eq!(unlocked_amount(1000, 0, 1000, 100, 1000), 1000);
    assert_eq!(unlocked_amount(i64::MAX, 0, 1000, 100, 1000), 1000);
}

#[test]
fn proportional_between_cliff_and_end() {
    assert_eq!(unlocked_amount(100, 0, 1000, 100, 1000), 100);
    assert_eq!(unlocked_amount(550, 0, 1000, 100, 1000), 550);
    // floor rounding: 1/3 of 100 rounds down
    assert_eq!(unlocked_amount(1, 0, 3, 0, 100), 33);
}

#[test]
fn monotonic_in_now() {
    let mut previous = 0u64;
    for now in [-5i64, 0, 50, 99, 100, 101, 500, 999, 1000, 5000] {
        let unlocked = unlocked_amount(now, 0, 1000, 100, 1000);
        assert!(unlocked >= previous);
        assert!(unlocked <= 1000);
        previous = unlocked;
    }
}

#[test]
fn wide_intermediate_handles_extreme_schedules() {
    // The widest possible span and the largest possible grant must not
    // overflow, and the endpoints must still be exact.
    let unlocked = unlocked_amount(0, i64::MIN, i64::MAX, i64::MIN, u64::MAX);
    assert!(unlocked <= u64::MAX / 2 + 1);
    assert!(unlocked >= u64::MAX / 2 - 1);
    assert_eq!(unlocked_amount(i64::MAX, i64::MIN, i64::MAX, i64::MIN, u64::MAX), u64::MAX);
    assert_eq!(unlocked_amount(i64::MIN, i64::MIN + 1, i64::MAX, i64::MIN + 1, u64::MAX), 0);
}

#[test]
fn claimable_subtracts_withdrawn() {
    assert_eq!(claimable_amount(550, 0, 1000, 100, 1000, 100), 450);
    assert_eq!(claimable_amount(550, 0, 1000, 100, 1000, 550), 0);
    // clamped at zero when the withdrawn state is ahead of the schedule
    assert_eq!(claimable_amount(550, 0, 1000, 100, 1000, 900), 0);
}

#[test]
fn claimable_is_idempotent_at_one_instant() {
    let first = claimable_amount(550, 0, 1000, 100, 1000, 100);
    let second = claimable_amount(550, 0, 1000, 100, 1000, 100 + first);
    assert_eq!(second, 0);
}

#[test]
fn cliff_at_start_unlocks_from_start() {
    assert_eq!(unlocked_amount(0, 0, 10, 0, 100), 0);
    assert_eq!(unlocked_amount(5, 0, 10, 0, 100), 50);
}

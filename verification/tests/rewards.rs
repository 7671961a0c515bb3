use bfi_staking::rewards::calc_rewards;

#[test]
fn full_base_reward_at_maturity() {
    // 10 percent of 1000, elapsed equal to the lock duration
    assert_eq!(calc_rewards(1000, 10, 100, 100), 100);
}

#[test]
fn full_base_reward_beyond_maturity() {
    assert_eq!(calc_rewards(1000, 10, 250, 100), 100);
}

#[test]
fn prorated_reward_at_half_lock() {
    assert_eq!(calc_rewards(1000, 10, 50, 100), 50);
}

#[test]
fn prorated_reward_truncates() {
    // base 100, 33 of 100 seconds
    assert_eq!(calc_rewards(1000, 10, 33, 100), 33);
    // base 7, 1 of 3 seconds: 7 * 1 / 3 truncates to 2
    assert_eq!(calc_rewards(70, 10, 1, 3), 2);
}

#[test]
fn zero_elapsed_earns_nothing() {
    assert_eq!(calc_rewards(1000, 10, 0, 100), 0);
}

#[test]
fn negative_elapsed_clamps_to_zero() {
    assert_eq!(calc_rewards(1000, 10, -5, 100), 0);
}

#[test]
fn negative_lock_duration_clamps_to_zero() {
    assert_eq!(calc_rewards(1000, 10, 5, -100), 0);
}

#[test]
fn base_reward_truncates() {
    // 2.5 percent of 30 would be 0.75: truncates to 0 at rate 2 in 100ths of 30
    assert_eq!(calc_rewards(30, 2, 1, 1), 0);
    assert_eq!(calc_rewards(150, 3, 1, 1), 4);
}

#[test]
fn reward_monotone_over_sampled_elapsed_times() {
    let mut last = 0;
    for elapsed in 0..=120 {
        let r = calc_rewards(1000, 10, elapsed, 100);
        assert!(r >= last);
        last = r;
    }
    // constant once the lock duration is reached
    assert_eq!(calc_rewards(1000, 10, 100, 100), calc_rewards(1000, 10, 10_000, 100));
}

use zrpc::breaker::{response_outcome, should_reject, BreakerGroup, SreBreaker};

#[test]
fn rejection_follows_the_excess_exactly() {
    // 100 requests, no successes, k = 2: the excess is 100 of 101.
    assert!(should_reject(100, 0, 2, 0));
    assert!(should_reject(100, 0, 2, 99));
    assert!(!should_reject(100, 0, 2, 100));
    // 100 requests, 50 successes, k = 2: no excess, nothing is refused.
    assert!(!should_reject(100, 50, 2, 0));
    // 100 requests, 40 successes, k = 2: the excess is 20 of 101.
    assert!(should_reject(100, 40, 2, 19));
    assert!(!should_reject(100, 40, 2, 20));
}

#[test]
fn a_fresh_breaker_admits() {
    let b = SreBreaker::default_breaker();
    for _ in 0..100 {
        assert!(b.allow());
    }
}

#[test]
fn all_successes_never_refuse() {
    let mut b = SreBreaker::default_breaker();
    for _ in 0..100 {
        b.mark_success();
    }
    for _ in 0..100 {
        assert!(b.allow());
    }
}

#[test]
fn all_failures_shed_the_overwhelming_majority() {
    let mut b = SreBreaker::default_breaker();
    for _ in 0..100 {
        b.mark_failed();
    }
    // Rejection probability is 100/101 per call; fewer than half refusals
    // out of 100 would be astronomically unlikely.
    let mut refused: usize = 0;
    for _ in 0..100 {
        if !b.allow() {
            refused += 1;
        }
    }
    assert!(refused >= 50, "only {refused} of 100 were refused");
}

#[test]
fn the_window_slides_old_failures_out() {
    let mut b = SreBreaker::default_breaker();
    for _ in 0..100 {
        b.mark_failed();
    }
    for _ in 0..100 {
        b.mark_success();
    }
    // The failures have left the 100-entry window: admission is certain.
    for _ in 0..100 {
        assert!(b.allow());
    }
}

#[test]
fn mixed_outcomes_with_enough_successes_admit() {
    // k = 2: up to half the window may fail without any shedding.
    let mut b = SreBreaker::new(2, 100);
    for _ in 0..50 {
        b.mark_success();
        b.mark_failed();
    }
    for _ in 0..100 {
        assert!(b.allow());
    }
}

#[test]
fn response_outcome_is_ok_only_on_code_zero() {
    assert!(response_outcome(Some(0)));
    assert!(!response_outcome(Some(14)));
    assert!(!response_outcome(Some(-1)));
    assert!(!response_outcome(None));
}

#[test]
fn the_group_keeps_paths_apart() {
    let g = BreakerGroup::new();
    for _ in 0..100 {
        g.record("/svc/Add", false);
        g.record("/svc/Get", true);
    }
    // The healthy path keeps admitting whatever the sick one does.
    for _ in 0..100 {
        assert!(g.allow("/svc/Get"));
    }
    let shared = g.duplicate();
    let mut refused: usize = 0;
    for _ in 0..100 {
        if !shared.allow("/svc/Add") {
            refused += 1;
        }
    }
    assert!(refused >= 50, "only {refused} of 100 were refused");
}

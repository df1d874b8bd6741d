use rsnano_node::throttle::Throttle;

#[test]
fn throttle_empty() {
    let throttle = Throttle::new(2);
    assert_eq!(throttle.throttled(), false);
}

#[test]
fn throttled() {
    let mut throttle = Throttle::new(2);
    throttle.add(false);
    assert_eq!(throttle.throttled(), false);
    throttle.add(false);
    assert_eq!(throttle.throttled(), true);
}

#[test]
fn resize_up() {
    let mut throttle = Throttle::new(2);
    throttle.add(false);
    throttle.resize(4);
    assert_eq!(throttle.throttled(), false);
    throttle.add(false);
    assert_eq!(throttle.throttled(), true);
}

#[test]
fn resize_down() {
    let mut throttle = Throttle::new(4);
    throttle.add(false);
    throttle.resize(2);
    assert_eq!(throttle.throttled(), false);
    throttle.add(false);
    assert_eq!(throttle.throttled(), true);
}

#[test]
fn throttle_counts_successes_and_length() {
    let mut throttle = Throttle::new(3);
    assert_eq!(throttle.len(), 3);
    assert_eq!(throttle.successes(), 3);
    throttle.add(false);
    assert_eq!(throttle.successes(), 2);
    throttle.add(true);
    assert_eq!(throttle.successes(), 2);
    throttle.resize(5);
    assert_eq!(throttle.len(), 5);
    assert_eq!(throttle.successes(), 2);
    throttle.resize(1);
    assert_eq!(throttle.len(), 1);
    // growing appended failed samples at the back, so the one kept is a failure
    assert_eq!(throttle.successes(), 0);
    assert!(throttle.throttled());
}

#[test]
fn as_many_failures_as_samples_throttle_and_one_success_lifts_it() {
    let mut t = Throttle::new(3);
    t.add(true);
    t.add(false);
    t.add(false);
    assert!(!t.throttled());
    t.add(false);
    assert!(t.throttled());
    assert_eq!(t.successes(), 0);
    t.add(true);
    assert!(!t.throttled());
    assert!(t.successes() <= t.len());
}

use block_grid::Clock;

#[test]
fn new_clock_defaults() {
    let c = Clock::new();
    assert_eq!(c.time, 0);
    assert_eq!(c.interval, 1);
    assert!(!c.dispatch);
}

#[test]
fn tick_accumulates_then_toggles_and_resets() {
    // Clock { interval: 1.0 } driven in tenths: tick(0.6) then tick(0.5).
    let mut c = Clock::new();
    c.set_interval(10);
    c.tick(6);
    assert_eq!(c.time, 6);
    assert!(!c.dispatch);
    c.tick(5);
    assert_eq!(c.time, 0);
    assert!(c.dispatch);
}

#[test]
fn tick_boundary_exact_interval_triggers() {
    let mut c = Clock::new();
    c.set_interval(10);
    c.tick(5);
    assert_eq!(c.time, 5);
    assert!(!c.dispatch);
    c.tick(5);
    // cumulative 10 >= 10: the crossing happens on this exact step
    assert_eq!(c.time, 0);
    assert!(c.dispatch);
}

#[test]
fn dispatch_flips_once_every_period() {
    // interval 10, constant step 3: the period is ceil(10/3) = 4 steps.
    let mut c = Clock::new();
    c.set_interval(10);
    let mut flips: Vec<usize> = Vec::new();
    let mut last = c.dispatch;
    for step in 1..=12usize {
        c.tick(3);
        if c.dispatch != last {
            flips.push(step);
            last = c.dispatch;
        }
    }
    assert_eq!(flips, vec![4, 8, 12]);
}

#[test]
fn dispatch_toggles_not_pulses() {
    // every other crossing presents as true
    let mut c = Clock::new();
    c.set_interval(1);
    c.tick(1);
    assert!(c.dispatch);
    c.tick(1);
    assert!(!c.dispatch);
    c.tick(1);
    assert!(c.dispatch);
}

#[test]
fn set_interval_keeps_accumulator() {
    let mut c = Clock::new();
    c.set_interval(100);
    c.tick(7);
    c.set_interval(50);
    assert_eq!(c.time, 7);
    assert_eq!(c.interval, 50);
    assert!(!c.dispatch);
}

#[test]
fn reset_zeroes_time_only() {
    let mut c = Clock::new();
    c.set_interval(5);
    c.tick(5);
    assert!(c.dispatch);
    c.tick(3);
    c.reset();
    assert_eq!(c.time, 0);
    assert_eq!(c.interval, 5);
    assert!(c.dispatch);
}

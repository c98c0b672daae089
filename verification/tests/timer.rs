use snake_game::timer::Timer;

#[test]
fn new_timer_has_measured_nothing() {
    let timer = Timer::new();
    assert_eq!(timer.delta(), None);
}

#[test]
fn tick_takes_a_measure() {
    let mut timer = Timer::new();
    timer.tick();
    assert!(timer.delta().is_some());
}

#[test]
fn measures_never_go_back() {
    let mut timer = Timer::new();
    timer.tick();
    let first = timer.delta().unwrap();
    let mut last = first;
    for _ in 0..1000 {
        timer.tick();
        let now = timer.delta().unwrap();
        assert!(now >= last);
        last = now;
    }
}

#[test]
fn measures_grow_while_time_passes() {
    let mut timer = Timer::new();
    timer.tick();
    let first = timer.delta().unwrap();
    let mut now = first;
    while now < first + 1_000_000 {
        timer.tick();
        now = timer.delta().unwrap();
    }
    assert!(now >= first + 1_000_000);
}

#[test]
fn reset_forgets_the_measure() {
    let mut timer = Timer::new();
    timer.tick();
    timer.reset();
    assert_eq!(timer.delta(), None);
}

#[test]
fn reset_starts_the_measure_over() {
    let mut timer = Timer::new();
    timer.tick();
    while timer.delta().unwrap() < 5_000_000 {
        timer.tick();
    }
    let before = std::time::Instant::now();
    timer.reset();
    timer.tick();
    let bound = before.elapsed().as_nanos();
    assert!(timer.delta().unwrap() <= bound);
}

#[test]
fn tick_measures_the_time_since_the_start() {
    let before = std::time::Instant::now();
    let mut timer = Timer::new();
    let after = std::time::Instant::now();
    while after.elapsed().as_nanos() < 2_000_000 {}
    let at_least = after.elapsed().as_nanos();
    timer.tick();
    let at_most = before.elapsed().as_nanos();
    let measured = timer.delta().unwrap();
    assert!(at_least <= measured && measured <= at_most);
}

#[test]
fn record_takes_down_the_measure_it_is_given() {
    let mut timer = Timer::new();
    timer.record(123);
    assert_eq!(timer.delta(), Some(123));
    timer.record(0);
    assert_eq!(timer.delta(), Some(0));
    timer.record(u128::MAX);
    assert_eq!(timer.delta(), Some(u128::MAX));
}

#[test]
fn record_leaves_the_start_alone() {
    let start = std::time::Instant::now();
    while start.elapsed().as_nanos() < 2_000_000 {}
    let mut timer = Timer::started_at(start);
    timer.record(7);
    timer.tick();
    assert!(timer.delta().unwrap() >= 2_000_000);
}

#[test]
fn reset_at_starts_over_from_the_reading_it_is_given() {
    let mut timer = Timer::new();
    timer.record(99);
    let now = std::time::Instant::now();
    while now.elapsed().as_nanos() < 2_000_000 {}
    let at_least = now.elapsed().as_nanos();
    timer.reset_at(now);
    assert_eq!(timer.delta(), None);
    timer.tick();
    let at_most = now.elapsed().as_nanos();
    let measured = timer.delta().unwrap();
    assert!(at_least <= measured && measured <= at_most);
}

#[test]
fn reset_at_an_earlier_reading_measures_from_it() {
    let early = std::time::Instant::now();
    while early.elapsed().as_nanos() < 2_000_000 {}
    let mut timer = Timer::new();
    timer.reset_at(early);
    timer.tick();
    assert!(timer.delta().unwrap() >= 2_000_000);
}

#[test]
fn started_at_measures_from_the_reading_it_is_given() {
    let start = std::time::Instant::now();
    while start.elapsed().as_nanos() < 2_000_000 {}
    let mut timer = Timer::started_at(start);
    assert_eq!(timer.delta(), None);
    timer.tick();
    assert!(timer.delta().unwrap() >= 2_000_000);
}

use std::time::{Duration, Instant};
use stopwatch_clock::elapsed::format_elapsed;
use stopwatch_clock::stopwatch::{Stopwatch, StopwatchState};

fn wait(millis: u64) {
    let start = Instant::now();
    while start.elapsed() < Duration::from_millis(millis) {}
}

/// The three fields of a shown time, as numbers.
fn fields(text: &str) -> (u128, u128, u128) {
    let parts: Vec<u128> = text.split(':').map(|part| part.parse().unwrap()).collect();
    assert_eq!(parts.len(), 3);
    (parts[0], parts[1], parts[2])
}

#[test]
fn new_stopwatch_has_not_started() {
    let stopwatch = Stopwatch::new();
    assert_eq!(stopwatch.state(), StopwatchState::NotStarted);
    assert!(matches!(stopwatch, Stopwatch::NotStarted));
}

#[test]
fn state_after_n_advances_is_n_mod_three() {
    let cycle = [StopwatchState::NotStarted, StopwatchState::Running, StopwatchState::Done];
    let mut stopwatch = Stopwatch::new();
    for n in 0..30usize {
        assert_eq!(stopwatch.state(), cycle[n % 3]);
        stopwatch.next_state();
    }
    assert_eq!(stopwatch.state(), StopwatchState::NotStarted);
}

#[test]
fn state_after_n_advances_at_given_moments() {
    let cycle = [StopwatchState::NotStarted, StopwatchState::Running, StopwatchState::Done];
    let mut stopwatch = Stopwatch::new();
    for n in 0..30usize {
        assert_eq!(stopwatch.state(), cycle[n % 3]);
        stopwatch.advance_at(Instant::now(), (n as u128) * 1_000_000);
    }
    assert_eq!(stopwatch.state(), StopwatchState::NotStarted);
}

#[test]
fn not_started_shows_zero() {
    let stopwatch = Stopwatch::new();
    assert_eq!(stopwatch.get_time(), "0:0:0");
    wait(30);
    assert_eq!(stopwatch.get_time(), "0:0:0");
    assert_eq!(stopwatch.display_at(0), "0:0:0");
    assert_eq!(stopwatch.display_at(65_340), "0:0:0");
    assert_eq!(stopwatch.display_at(u128::MAX), "0:0:0");
}

#[test]
fn zero_text_is_the_text_of_no_elapsed_time() {
    assert_eq!(Stopwatch::new().get_time(), format_elapsed(0));
}

#[test]
fn running_shows_the_elapsed_time() {
    let mut stopwatch = Stopwatch::new();
    stopwatch.advance_at(Instant::now(), 0);
    assert_eq!(stopwatch.state(), StopwatchState::Running);
    assert_eq!(stopwatch.display_at(0), "0:0:0");
    assert_eq!(stopwatch.display_at(1_000), "0:1:0");
    assert_eq!(stopwatch.display_at(65_340), "1:5:34");
    assert_eq!(stopwatch.display_at(599_990), "9:59:99");
}

#[test]
fn running_measures_from_its_origin() {
    let origin = Instant::now();
    let stopwatch = Stopwatch::Running { origin };
    wait(120);
    let shown = fields(&stopwatch.get_time());
    let upper = origin.elapsed().as_millis();
    let hundredths = shown.0 * 6_000 + shown.1 * 100 + shown.2;
    assert!(hundredths >= 12);
    assert!(hundredths <= upper / 10);
}

#[test]
fn running_never_goes_back() {
    let mut stopwatch = Stopwatch::new();
    stopwatch.next_state();
    let first = fields(&stopwatch.get_time());
    wait(50);
    let second = fields(&stopwatch.get_time());
    assert!(first <= second);
    assert!(first < second);
    wait(50);
    let third = fields(&stopwatch.get_time());
    assert!(second < third);
}

#[test]
fn shown_time_never_goes_back_at_given_moments() {
    let stopwatch = Stopwatch::Running { origin: Instant::now() };
    let moments: [u128; 9] = [0, 9, 10, 990, 1_000, 59_999, 60_000, 65_340, 3_600_000];
    for pair in moments.windows(2) {
        let earlier = fields(&stopwatch.display_at(pair[0]));
        let later = fields(&stopwatch.display_at(pair[1]));
        assert!(earlier <= later);
    }
}

#[test]
fn querying_does_not_change_the_stopwatch() {
    let mut stopwatch = Stopwatch::new();
    for _ in 0..3 {
        let _ = stopwatch.get_time();
        let _ = stopwatch.display_at(12_345);
        assert_eq!(stopwatch.state(), StopwatchState::NotStarted);
    }
    stopwatch.next_state();
    for _ in 0..3 {
        let _ = stopwatch.get_time();
        let _ = stopwatch.display_at(12_345);
        assert_eq!(stopwatch.state(), StopwatchState::Running);
    }
    stopwatch.next_state();
    for _ in 0..3 {
        let _ = stopwatch.get_time();
        let _ = stopwatch.display_at(12_345);
        assert_eq!(stopwatch.state(), StopwatchState::Done);
    }
}

#[test]
fn done_shows_the_frozen_text() {
    let mut stopwatch = Stopwatch::new();
    stopwatch.next_state();
    wait(40);
    stopwatch.next_state();
    let frozen = stopwatch.get_time();
    assert!(fields(&frozen) >= (0, 0, 4));
    wait(40);
    assert_eq!(stopwatch.get_time(), frozen);
    assert_eq!(stopwatch.get_time(), frozen);
    assert_eq!(stopwatch.display_at(0), frozen);
    assert_eq!(stopwatch.display_at(9_999_999), frozen);
    match stopwatch {
        Stopwatch::Done { display } => assert_eq!(display, frozen),
        _ => panic!("the stopwatch is not done"),
    }
}

#[test]
fn done_shows_its_text_verbatim() {
    let stopwatch = Stopwatch::Done { display: String::from("12:34:56") };
    assert_eq!(stopwatch.state(), StopwatchState::Done);
    assert_eq!(stopwatch.get_time(), "12:34:56");
    assert_eq!(stopwatch.display_at(1), "12:34:56");
}

#[test]
fn start_query_stop_query_reset() {
    let mut stopwatch = Stopwatch::new();
    let start = Instant::now();
    stopwatch.advance_at(start, 0);
    assert_eq!(stopwatch.state(), StopwatchState::Running);
    assert_eq!(stopwatch.display_at(65_340), "1:5:34");

    stopwatch.advance_at(start + Duration::from_millis(70_000), 70_000);
    assert_eq!(stopwatch.state(), StopwatchState::Done);
    assert_eq!(stopwatch.display_at(70_000), "1:10:0");
    assert_eq!(stopwatch.display_at(70_001), "1:10:0");
    assert_eq!(stopwatch.display_at(1_000_000), "1:10:0");
    assert_eq!(stopwatch.get_time(), "1:10:0");
    wait(20);
    assert_eq!(stopwatch.get_time(), "1:10:0");

    stopwatch.advance_at(start + Duration::from_millis(80_000), 80_000);
    assert_eq!(stopwatch.state(), StopwatchState::NotStarted);
    assert_eq!(stopwatch.display_at(80_000), "0:0:0");
    assert_eq!(stopwatch.get_time(), "0:0:0");
}

#[test]
fn starting_takes_the_given_instant_as_origin() {
    let mut stopwatch = Stopwatch::new();
    let now = Instant::now();
    stopwatch.advance_at(now, 123_456);
    match stopwatch {
        Stopwatch::Running { origin } => assert_eq!(origin, now),
        _ => panic!("the stopwatch is not running"),
    }
}

#[test]
fn starting_again_measures_from_the_new_start() {
    let mut stopwatch = Stopwatch::new();
    stopwatch.next_state();
    wait(300);
    stopwatch.next_state();
    assert!(fields(&stopwatch.get_time()) >= (0, 0, 30));
    stopwatch.next_state();
    stopwatch.next_state();
    assert_eq!(stopwatch.state(), StopwatchState::Running);
    let shown = fields(&stopwatch.get_time());
    assert!(shown < (0, 0, 30));
}

#[test]
fn resetting_drops_the_frozen_text() {
    let mut stopwatch = Stopwatch::Done { display: String::from("3:2:1") };
    stopwatch.next_state();
    assert!(matches!(stopwatch, Stopwatch::NotStarted));
    assert_eq!(stopwatch.get_time(), "0:0:0");
}

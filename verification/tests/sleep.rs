use pixelbot::sleep::{SleepPerformer, MAX_PAUSE_SECS, MIN_PAUSE_SECS, NANOS_PER_SEC};
use rand::rngs::StdRng;
use rand::SeedableRng;

#[test]
fn pauses_last_between_65_and_180_seconds() {
    assert_eq!(MIN_PAUSE_SECS, 65);
    assert_eq!(MAX_PAUSE_SECS, 180);
    assert_eq!(NANOS_PER_SEC, 1_000_000_000);
    let mut sleep = SleepPerformer::new(StdRng::seed_from_u64(7));
    let mut distinct = std::collections::BTreeSet::new();
    for _ in 0..500 {
        let nanos = sleep.perform();
        assert!(nanos >= 65_000_000_000);
        assert!(nanos <= 180_000_000_000);
        distinct.insert(nanos);
    }
    assert!(distinct.len() > 400);
}

#[test]
fn pauses_spread_over_the_range() {
    let mut sleep = SleepPerformer::new(StdRng::seed_from_u64(2024));
    let mut low = 0;
    let mut high = 0;
    for _ in 0..1000 {
        let nanos = sleep.perform();
        if nanos < 100_000_000_000 {
            low += 1;
        }
        if nanos > 150_000_000_000 {
            high += 1;
        }
    }
    assert!(low > 100);
    assert!(high > 100);
}

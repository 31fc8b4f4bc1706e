use daiana::util::time::get_current_time_in_seconds;
use daiana::util::time::seconds_since_epoch;

#[test]
fn reading_after_the_epoch_gives_its_seconds() {
    assert_eq!(seconds_since_epoch(Some(1_700_000_000)), 1_700_000_000);
    assert_eq!(seconds_since_epoch(Some(0)), 0);
}

#[test]
fn reading_before_the_epoch_gives_zero() {
    assert_eq!(seconds_since_epoch(None), 0);
}

#[test]
fn current_time_is_after_the_epoch() {
    assert!(get_current_time_in_seconds() > 1_600_000_000);
}

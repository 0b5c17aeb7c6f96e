use myo::time::iso_from_secs;

#[test]
fn iso_from_secs_matches_known_epochs() {
    assert_eq!(iso_from_secs(0), "1970-01-01T00:00:00Z");
    assert_eq!(iso_from_secs(1_609_459_200), "2021-01-01T00:00:00Z");
    assert_eq!(iso_from_secs(1_780_317_296), "2026-06-01T12:34:56Z");
}

#[test]
fn iso_handles_leap_days_and_times_before_the_epoch() {
    assert_eq!(iso_from_secs(951_782_400), "2000-02-29T00:00:00Z");
    assert_eq!(iso_from_secs(-1), "1969-12-31T23:59:59Z");
    assert_eq!(iso_from_secs(4_107_542_399), "2100-02-28T23:59:59Z");
}

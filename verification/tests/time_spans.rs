use pheasant::time_span::{MAX_NANOS, MAX_SECS, MIN_NANOS, MIN_SECS, TimeSpan};

#[test]
fn span_text_is_iso_8601() {
    assert_eq!(TimeSpan::new(600, 0).unwrap().to_string(), "PT600S");
    assert_eq!(TimeSpan::new(0, 0).unwrap().to_string(), "P0D");
    assert_eq!(TimeSpan::new(0, 5_000_000).unwrap().to_string(), "PT0.005S");
    assert_eq!(TimeSpan::new(1, 250_000_000).unwrap().to_string(), "PT1.25S");
    assert_eq!(TimeSpan::new(-2, 500_000_000).unwrap().to_string(), "-PT1.5S");
    assert_eq!(TimeSpan::new(-3, 0).unwrap().to_string(), "-PT3S");
}

#[test]
fn span_whole_seconds_round_toward_zero() {
    assert_eq!(TimeSpan::new(3600, 0).unwrap().num_seconds(), 3600);
    assert_eq!(TimeSpan::new(7, 999_999_999).unwrap().num_seconds(), 7);
    assert_eq!(TimeSpan::new(-2, 500_000_000).unwrap().num_seconds(), -1);
    assert_eq!(TimeSpan::new(-2, 0).unwrap().num_seconds(), -2);
}

#[test]
fn span_bounds() {
    assert!(TimeSpan::new(0, 1_000_000_000).is_none());
    assert!(TimeSpan::new(MAX_SECS, MAX_NANOS).is_some());
    assert!(TimeSpan::new(MAX_SECS, MAX_NANOS + 1).is_none());
    assert!(TimeSpan::new(MAX_SECS + 1, 0).is_none());
    assert!(TimeSpan::new(MIN_SECS, MIN_NANOS).is_some());
    assert!(TimeSpan::new(MIN_SECS, MIN_NANOS - 1).is_none());
    assert!(TimeSpan::new(MIN_SECS - 1, 999_999_999).is_none());
}

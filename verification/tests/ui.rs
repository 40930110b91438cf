use dragons_den::text::decimal_string;
use dragons_den::ui::{format_duration, locked_hint};

#[test]
fn durations_drop_empty_leading_units() {
    assert_eq!(format_duration(0), "0s");
    assert_eq!(format_duration(59), "59s");
    assert_eq!(format_duration(60), "1m 0s");
    assert_eq!(format_duration(3599), "59m 59s");
    assert_eq!(format_duration(3600), "1h 0m 0s");
    assert_eq!(format_duration(3605), "1h 0m 5s");
    assert_eq!(format_duration(90061), "25h 1m 1s");
}

#[test]
fn locked_cards_name_the_unmet_gate() {
    assert_eq!(locked_hint(0, 2, 25), "Requires Prestige 2");
    assert_eq!(locked_hint(2, 2, 25), "Unlocks at 25 minions");
    assert_eq!(locked_hint(7, 0, 100), "Unlocks at 100 minions");
}

#[test]
fn decimal_rendering_matches_display() {
    for n in [0u64, 7, 10, 99, 100, 4096, 1_000_000, u64::MAX] {
        assert_eq!(decimal_string(n), n.to_string());
    }
}

use dragons_den::state::gameplay::{
    minion_unlocked, total_minions, ActionLog, BuyError, BuyMode, Screen, UnlockEvent,
};

#[test]
fn buy_modes_request_their_counts() {
    assert_eq!(BuyMode::One.requested(), 1);
    assert_eq!(BuyMode::Ten.requested(), 10);
    assert_eq!(BuyMode::Max.requested(), u32::MAX);
    let labels: Vec<&str> = BuyMode::ALL.iter().map(|m| m.label()).collect();
    assert_eq!(labels, vec!["x1", "x10", "Max"]);
}

#[test]
fn screens_have_tab_captions() {
    let labels: Vec<&str> = Screen::ALL.iter().map(|s| s.label()).collect();
    assert_eq!(
        labels,
        vec!["Hoard", "Minions", "Upgrades", "Treasures", "Achievements", "Prestige", "Codex"]
    );
}

#[test]
fn action_log_keeps_the_newest_eight() {
    let mut log = ActionLog::default();
    assert!(log.is_empty());
    for i in 0..12 {
        log.push(format!("event {i}"));
        assert!(log.entries().len() <= ActionLog::CAP);
    }
    assert!(!log.is_empty());
    let kept: Vec<String> = log.entries().iter().cloned().collect();
    let expected: Vec<String> = (4..12).map(|i| format!("event {i}")).collect();
    assert_eq!(kept, expected);
    // Newest-first display reverses the oldest-first entries.
    assert_eq!(log.entries().iter().rev().next().unwrap(), "event 11");
}

#[test]
fn action_log_below_capacity_keeps_everything_in_order() {
    let mut log = ActionLog::new();
    log.push("a".to_string());
    log.push("b".to_string());
    log.push("c".to_string());
    let kept: Vec<&str> = log.entries().iter().map(|s| s.as_str()).collect();
    assert_eq!(kept, vec!["a", "b", "c"]);
}

#[test]
fn minion_totals_and_gates() {
    assert_eq!(total_minions(3, &[]), 3);
    assert_eq!(total_minions(3, &[4, 0, 5]), 12);
    assert!(minion_unlocked(25, 0, 25, 0));
    assert!(!minion_unlocked(24, 5, 25, 0));
    assert!(!minion_unlocked(100, 1, 25, 2));
    assert!(minion_unlocked(100, 2, 25, 2));
}

#[test]
fn events_and_errors_compare_by_value() {
    assert_eq!(
        UnlockEvent::Achievement { name: "First Click".into() },
        UnlockEvent::Achievement { name: "First Click".into() }
    );
    assert_ne!(
        UnlockEvent::Dragon { name: "Ember Wyrm".into() },
        UnlockEvent::Achievement { name: "Ember Wyrm".into() }
    );
    assert_ne!(BuyError::MaxLevel, BuyError::CannotAfford);
}

use dragons_den::data::{parse_hex_color, EffectStat, PrestigeBranch, Rarity, Rgb};
use dragons_den::ui::stat_label;

/// Channel values as the codex swatch renders them (0.0–1.0).
fn channels(rgb: Rgb) -> (f32, f32, f32) {
    (rgb.r as f32 / 255.0, rgb.g as f32 / 255.0, rgb.b as f32 / 255.0)
}

#[test]
fn dragons_hex_swatch_parses() {
    let (r, g, b) = channels(parse_hex_color("#FF4500").unwrap());
    assert!((r - 1.0).abs() < 1e-6);
    assert!((g - 69.0 / 255.0).abs() < 1e-6);
    assert!((b - 0.0).abs() < 1e-6);
    assert!(parse_hex_color("nope").is_none());
}

#[test]
fn tests_hex_swatch_parses() {
    let (r, g, b) = channels(parse_hex_color("#FF4500").unwrap());
    assert!((r - 1.0).abs() < 1e-6);
    assert!((g - 69.0 / 255.0).abs() < 1e-6);
    assert!((b - 0.0).abs() < 1e-6);
    assert!(parse_hex_color("nope").is_none());
}

#[test]
fn swatch_channels_are_exact() {
    assert_eq!(parse_hex_color("#123abc"), Some(Rgb { r: 0x12, g: 0x3a, b: 0xbc }));
    assert_eq!(parse_hex_color("#000000"), Some(Rgb { r: 0, g: 0, b: 0 }));
    assert_eq!(parse_hex_color("#ffFFff"), Some(Rgb { r: 255, g: 255, b: 255 }));
}

#[test]
fn malformed_swatches_are_rejected() {
    assert_eq!(parse_hex_color(""), None);
    assert_eq!(parse_hex_color("#"), None);
    assert_eq!(parse_hex_color("FF4500"), None);
    assert_eq!(parse_hex_color("#FF450"), None);
    assert_eq!(parse_hex_color("#FF45000"), None);
    assert_eq!(parse_hex_color("#GG4500"), None);
    assert_eq!(parse_hex_color("#FF 500"), None);
    assert_eq!(parse_hex_color("#-FFFFF"), None);
    assert_eq!(parse_hex_color("#é12345"), None);
    assert_eq!(parse_hex_color("#++FFFF"), None);
}

#[test]
fn a_leading_plus_sign_reads_as_unsigned_hex() {
    // Six characters that read as one unsigned hex number: "+" then five digits.
    assert_eq!(parse_hex_color("#+FFFFF"), Some(Rgb { r: 0x0f, g: 0xff, b: 0xff }));
}

#[test]
fn catalog_labels() {
    assert_eq!(Rarity::Common.label(), "Common");
    assert_eq!(Rarity::Rare.label(), "Rare");
    assert_eq!(Rarity::Epic.label(), "Epic");
    assert_eq!(Rarity::Legendary.label(), "Legendary");
    assert_eq!(Rarity::Legendary.tier_index(), 3);
    assert_eq!(Rarity::Common.tier_index(), 0);
    assert!(Rarity::Common < Rarity::Legendary);

    let labels: Vec<&str> = PrestigeBranch::ALL.iter().map(|b| b.label()).collect();
    assert_eq!(labels, vec!["Greed", "Power", "Discovery", "Legion", "Eternity"]);

    assert_eq!(stat_label(EffectStat::GoldPerClick), "gold per click");
    assert_eq!(stat_label(EffectStat::HoardPointGain), "Hoard Point gain");
    assert_eq!(stat_label(EffectStat::AllGold), "all gold");
}

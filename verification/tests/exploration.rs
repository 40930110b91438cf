use dragons_den::exploration::{
    available_treasures, pick_weighted, pool_weight, roll_treasure, ExploreOutcome, TreasureEntry,
};

fn entry(id: &str, drop_weight: u32, prestige_required: u32) -> TreasureEntry {
    TreasureEntry { id: id.to_string(), drop_weight, prestige_required }
}

/// A treasure table with the catalog's shape: common finds weigh the most,
/// legendary ones the least, and a later tier is gated behind prestiges.
fn catalog() -> Vec<TreasureEntry> {
    vec![
        entry("common_stone", 40, 0),
        entry("copper_coins", 40, 0),
        entry("rusty_blade", 35, 0),
        entry("cracked_chalice", 35, 0),
        entry("silver_ring", 20, 0),
        entry("jade_figurine", 18, 0),
        entry("ruby_pendant", 15, 0),
        entry("amethyst_shard", 15, 0),
        entry("enchanted_scroll", 8, 0),
        entry("dragon_scale", 6, 0),
        entry("phoenix_feather", 5, 0),
        entry("golden_goblet", 1, 0),
        entry("sunken_crown", 1, 0),
        entry("wyrm_heart", 10, 2),
        entry("starfall_gem", 4, 2),
        entry("crown_of_ages", 1, 5),
    ]
}

/// A small seeded generator standing in for the game's RNG.
struct TestRng(u64);

impl TestRng {
    fn new(seed: u64) -> Self {
        TestRng(seed.wrapping_mul(0x9E37_79B9_7F4A_7C15) | 1)
    }

    fn next_u32(&mut self) -> u32 {
        let mut x = self.0;
        x ^= x << 13;
        x ^= x >> 7;
        x ^= x << 17;
        self.0 = x;
        (x >> 32) as u32
    }

    fn next_f32(&mut self) -> f32 {
        (self.next_u32() >> 8) as f32 / (1u32 << 24) as f32
    }

    fn below(&mut self, n: usize) -> usize {
        self.next_u32() as usize % n
    }
}

/// An expedition roll: the discovery gate, then a weighted pick on a hit. The
/// generator is not consulted when nothing is within reach.
fn roll(
    rng: &mut TestRng,
    treasures: &[TreasureEntry],
    discovered: &[String],
    prestige_count: u32,
    chance: f64,
) -> ExploreOutcome {
    let pool = available_treasures(treasures, discovered, prestige_count);
    if pool.is_empty() {
        return roll_treasure(treasures, discovered, prestige_count, false, 0);
    }
    let hit = f64::from(rng.next_f32()) < chance;
    let draw = if hit {
        let total = pool_weight(treasures, &pool);
        rng.below(total.max(1) as usize) as u32
    } else {
        0
    };
    roll_treasure(treasures, discovered, prestige_count, hit, draw)
}

fn id_of(treasures: &[TreasureEntry], outcome: ExploreOutcome) -> Option<&str> {
    match outcome {
        ExploreOutcome::Found(i) => Some(treasures[i].id.as_str()),
        _ => None,
    }
}

#[test]
fn guaranteed_roll_finds_an_undiscovered_treasure() {
    let treasures = catalog();
    let mut rng = TestRng::new(7);
    let discovered = vec!["common_stone".to_owned()];

    match roll(&mut rng, &treasures, &discovered, 0, 1.0) {
        ExploreOutcome::Found(i) => assert_ne!(treasures[i].id, "common_stone"),
        other => panic!("expected a find, got {:?}", other),
    }
}

#[test]
fn zero_chance_never_finds() {
    let treasures = catalog();
    let mut rng = TestRng::new(7);
    assert_eq!(roll(&mut rng, &treasures, &[], 0, 0.0), ExploreOutcome::NothingFound);
}

#[test]
fn full_collection_reports_all_discovered() {
    let treasures = catalog();
    let mut rng = TestRng::new(7);
    let discovered: Vec<String> = treasures.iter().map(|d| d.id.clone()).collect();
    assert_eq!(
        roll(&mut rng, &treasures, &discovered, u32::MAX, 1.0),
        ExploreOutcome::AllDiscovered
    );
}

#[test]
fn prestige_gate_locks_treasures_until_enough_prestige() {
    let treasures = catalog();
    // The lowest positive gate in the catalog, and every ungated treasure.
    let gate = treasures
        .iter()
        .map(|t| t.prestige_required)
        .filter(|&p| p > 0)
        .min()
        .expect("catalog should include prestige-gated treasures");
    let ungated: Vec<String> = treasures
        .iter()
        .filter(|t| t.prestige_required == 0)
        .map(|t| t.id.clone())
        .collect();

    // One prestige short, nothing is left within reach.
    let mut rng = TestRng::new(1);
    assert_eq!(
        roll(&mut rng, &treasures, &ungated, gate - 1, 1.0),
        ExploreOutcome::AllDiscovered
    );

    // With enough prestiges the locked treasures can be found.
    let mut rng = TestRng::new(2);
    let mut found_gated = false;
    for _ in 0..200 {
        if let ExploreOutcome::Found(i) = roll(&mut rng, &treasures, &ungated, gate, 1.0) {
            assert!(treasures[i].prestige_required <= gate);
            found_gated = true;
            break;
        }
    }
    assert!(
        found_gated,
        "a gated treasure should be findable once unlocked"
    );
}

#[test]
fn weights_bias_toward_common_drops() {
    let treasures = catalog();
    let mut rng = TestRng::new(42);
    let mut common = 0;
    let mut legendary = 0;
    for _ in 0..500 {
        match id_of(&treasures, roll(&mut rng, &treasures, &[], 0, 1.0)) {
            Some("common_stone") => common += 1,
            Some("golden_goblet") => legendary += 1,
            _ => {}
        }
    }
    assert!(
        common > legendary * 5,
        "common {common} vs legendary {legendary}"
    );
}

#[test]
fn each_treasure_owns_exactly_its_weight_of_rolls() {
    let treasures = vec![entry("a", 3, 0), entry("b", 0, 0), entry("c", 2, 0), entry("d", 5, 9)];
    let pool = available_treasures(&treasures, &[], 0);
    assert_eq!(pool, vec![0, 1, 2]);
    let total = pool_weight(&treasures, &pool);
    assert_eq!(total, 5);
    let picks: Vec<usize> = (0..total).map(|r| pick_weighted(&treasures, &pool, r)).collect();
    // Rolls 0..3 land on "a", 3..5 on "c"; the zero-weight "b" is never picked.
    assert_eq!(picks, vec![0, 0, 0, 2, 2]);
}

#[test]
fn all_zero_weights_take_the_last_entry() {
    let treasures = vec![entry("a", 0, 0), entry("b", 0, 0)];
    let pool = available_treasures(&treasures, &[], 0);
    assert_eq!(pool_weight(&treasures, &pool), 0);
    assert_eq!(pick_weighted(&treasures, &pool, 0), 1);
    assert_eq!(roll_treasure(&treasures, &[], 0, true, 0), ExploreOutcome::Found(1));
}

#[test]
fn discovered_and_locked_treasures_leave_the_pool() {
    let treasures = catalog();
    let discovered = vec!["copper_coins".to_string(), "golden_goblet".to_string()];
    let pool = available_treasures(&treasures, &discovered, 0);
    assert_eq!(pool.len(), 11);
    assert!(!pool.contains(&1));
    assert!(!pool.contains(&11));
    assert!(!pool.contains(&13));
    // More prestige only widens the pool.
    let wider = available_treasures(&treasures, &discovered, 5);
    assert!(pool.iter().all(|i| wider.contains(i)));
    assert_eq!(wider.len(), 14);
}

#[test]
fn a_missed_gate_finds_nothing_while_treasure_remains() {
    let treasures = catalog();
    assert_eq!(roll_treasure(&treasures, &[], 0, false, 0), ExploreOutcome::NothingFound);
    // The roll on a hit selects by cumulative weight: 0..40 is the first entry.
    assert_eq!(roll_treasure(&treasures, &[], 0, true, 39), ExploreOutcome::Found(0));
    assert_eq!(roll_treasure(&treasures, &[], 0, true, 40), ExploreOutcome::Found(1));
}

//! Catalog vocabulary shared by the game's data files: the statistics that
//! unlock conditions read, the stats that effects modify, treasure rarities,
//! prestige-tree branches, and the `#RRGGBB` swatch format of the codex.

use vstd::prelude::*;

verus! {

/// A lifetime or run statistic that unlock conditions can reference.
#[derive(Debug, Clone, Copy, PartialEq, Eq, Structural)]
pub enum StatKey {
    ClicksTotal,
    GoldTotalEarned,
    Goblins,
    TreasuresDiscovered,
    UpgradesPurchased,
    PrestigeCount,
    AchievementsUnlocked,
    ExpeditionsLaunched,
    GoldenHoardsCollected,
}

/// A stat that percent and rate effects can modify.
#[derive(Debug, Clone, Copy, PartialEq, Eq, Hash, Structural)]
pub enum EffectStat {
    GoldPerClick,
    GoldPerSecond,
    MinionEfficiency,
    DiscoveryChance,
    HoardPointGain,
    /// Reduces minion hire cost as a `1 / (1 + sum)` divisor on the base curve.
    HireDiscount,
    /// Scales every gold income source.
    AllGold,
    /// Raises the base-minion soft cap.
    MinionCap,
}

/// Treasure rarity tiers, from most to least common.
#[derive(Debug, Clone, Copy, PartialEq, Eq, PartialOrd, Ord, Structural)]
pub enum Rarity {
    Common,
    Rare,
    Epic,
    Legendary,
}

impl Rarity {
    pub open spec fn spec_label(self) -> Seq<char> {
        match self {
            Rarity::Common => "Common"@,
            Rarity::Rare => "Rare"@,
            Rarity::Epic => "Epic"@,
            Rarity::Legendary => "Legendary"@,
        }
    }

    /// The player-facing name of the tier.
    pub fn label(self) -> (r: &'static str)
        ensures
            r@ == self.spec_label(),
    {
        match self {
            Rarity::Common => "Common",
            Rarity::Rare => "Rare",
            Rarity::Epic => "Epic",
            Rarity::Legendary => "Legendary",
        }
    }

    /// Position on the rarity ladder: 0 for Common, rising by one per tier.
    pub fn tier_index(self) -> (r: u32)
        ensures
            r == match self {
                Rarity::Common => 0u32,
                Rarity::Rare => 1u32,
                Rarity::Epic => 2u32,
                Rarity::Legendary => 3u32,
            },
    {
        match self {
            Rarity::Common => 0,
            Rarity::Rare => 1,
            Rarity::Epic => 2,
            Rarity::Legendary => 3,
        }
    }
}

/// One of the five columns of the permanent prestige tree.
#[derive(Debug, Clone, Copy, PartialEq, Eq, Structural)]
pub enum PrestigeBranch {
    Greed,
    Power,
    Discovery,
    Legion,
    Eternity,
}

impl PrestigeBranch {
    /// Every branch, in display order.
    pub const ALL: [PrestigeBranch; 5] = [
        PrestigeBranch::Greed,
        PrestigeBranch::Power,
        PrestigeBranch::Discovery,
        PrestigeBranch::Legion,
        PrestigeBranch::Eternity,
    ];

    pub open spec fn spec_label(self) -> Seq<char> {
        match self {
            PrestigeBranch::Greed => "Greed"@,
            PrestigeBranch::Power => "Power"@,
            PrestigeBranch::Discovery => "Discovery"@,
            PrestigeBranch::Legion => "Legion"@,
            PrestigeBranch::Eternity => "Eternity"@,
        }
    }

    /// The player-facing name of the branch.
    pub fn label(self) -> (r: &'static str)
        ensures
            r@ == self.spec_label(),
    {
        match self {
            PrestigeBranch::Greed => "Greed",
            PrestigeBranch::Power => "Power",
            PrestigeBranch::Discovery => "Discovery",
            PrestigeBranch::Legion => "Legion",
            PrestigeBranch::Eternity => "Eternity",
        }
    }
}

// --- `#RRGGBB` swatches -----------------------------------------------------

/// An 8-bit-per-channel color.
#[derive(Debug, Clone, Copy, PartialEq, Eq, Structural)]
pub struct Rgb {
    pub r: u8,
    pub g: u8,
    pub b: u8,
}

pub open spec fn is_hex_char(c: char) -> bool {
    ('0' <= c && c <= '9') || ('a' <= c && c <= 'f') || ('A' <= c && c <= 'F')
}

pub open spec fn hex_value(c: char) -> nat {
    if '0' <= c && c <= '9' {
        (c as nat - '0' as nat) as nat
    } else if 'a' <= c && c <= 'f' {
        (c as nat - 'a' as nat + 10) as nat
    } else {
        (c as nat - 'A' as nat + 10) as nat
    }
}

pub open spec fn all_hex(s: Seq<char>) -> bool {
    forall|i: int| 0 <= i < s.len() ==> is_hex_char(#[trigger] s[i])
}

/// The number that a sequence of hex digits spells, most significant first.
pub open spec fn hex_number(s: Seq<char>) -> nat
    decreases s.len(),
{
    if s.len() == 0 {
        0
    } else {
        hex_number(s.drop_last()) * 16 + hex_value(s.last())
    }
}

/// The digits a swatch string carries, if it is well formed: a `#`, then six
/// characters that read as one unsigned hexadecimal number — six hex digits,
/// or a `+` sign followed by five.
pub open spec fn swatch_digits(s: Seq<char>) -> Option<Seq<char>> {
    if s.len() == 7 && s[0] == '#' {
        let rest = s.subrange(1, 7);
        if all_hex(rest) {
            Some(rest)
        } else if rest[0] == '+' && all_hex(rest.subrange(1, 6)) {
            Some(rest.subrange(1, 6))
        } else {
            None
        }
    } else {
        None
    }
}

pub open spec fn rgb_of(v: nat) -> Rgb {
    Rgb { r: ((v / 65536) % 256) as u8, g: ((v / 256) % 256) as u8, b: (v % 256) as u8 }
}

/// The color a swatch string names, or `None` when it is malformed.
pub open spec fn spec_parse_hex_color(s: Seq<char>) -> Option<Rgb> {
    match swatch_digits(s) {
        Some(d) => Some(rgb_of(hex_number(d))),
        None => None,
    }
}

proof fn lemma_hex_number_bound(s: Seq<char>)
    requires
        all_hex(s),
    ensures
        hex_number(s) < pow16(s.len()),
    decreases s.len(),
{
    if s.len() > 0 {
        assert(all_hex(s.drop_last()));
        lemma_hex_number_bound(s.drop_last());
        assert(is_hex_char(s[s.len() - 1]));
        assert(hex_value(s.last()) < 16);
        assert(pow16(s.len()) == pow16((s.len() - 1) as nat) * 16);
        assert(hex_number(s.drop_last()) * 16 + hex_value(s.last()) < pow16(s.len())) by (nonlinear_arith)
            requires
                hex_number(s.drop_last()) < pow16((s.len() - 1) as nat),
                hex_value(s.last()) < 16,
                pow16(s.len()) == pow16((s.len() - 1) as nat) * 16,
        ;
    }
}

spec fn pow16(n: nat) -> nat
    decreases n,
{
    if n == 0 { 1 } else { pow16((n - 1) as nat) * 16 }
}

fn hex_digit(c: char) -> (r: Option<u32>)
    ensures
        r is Some <==> is_hex_char(c),
        r matches Some(v) ==> v == hex_value(c) && v < 16,
{
    if '0' <= c && c <= '9' {
        Some(c as u32 - '0' as u32)
    } else if 'a' <= c && c <= 'f' {
        Some(c as u32 - 'a' as u32 + 10)
    } else if 'A' <= c && c <= 'F' {
        Some(c as u32 - 'A' as u32 + 10)
    } else {
        None
    }
}

/// Reads the hex digits of `s` at character positions `from..to`.
fn read_hex(s: &str, from: usize, to: usize) -> (r: Option<u32>)
    requires
        from <= to <= s@.len(),
        to - from <= 6,
    ensures
        r is Some <==> all_hex(s@.subrange(from as int, to as int)),
        r matches Some(v) ==> v == hex_number(s@.subrange(from as int, to as int)),
{
    let mut acc: u32 = 0;
    let mut i = from;
    while i < to
        invariant
            from <= i <= to <= s@.len(),
            to - from <= 6,
            all_hex(s@.subrange(from as int, i as int)),
            acc == hex_number(s@.subrange(from as int, i as int)),
        decreases to - i,
    {
        let c = s.get_char(i);
        match hex_digit(c) {
            None => {
                assert(s@.subrange(from as int, to as int)[i - from] == c);
                return None;
            },
            Some(d) => {
                let ghost prev = s@.subrange(from as int, i as int);
                let ghost next = s@.subrange(from as int, i + 1);
                assert(next.drop_last() =~= prev);
                assert(next.last() == c);
                proof {
                    lemma_hex_number_bound(prev);
                    lemma_pow16_le6((i - from) as nat);
                }
                acc = acc * 16 + d;
                i = i + 1;
            },
        }
    }
    Some(acc)
}

proof fn lemma_pow16_le6(n: nat)
    requires
        n < 6,
    ensures
        pow16(n) <= 1048576,
{
    reveal_with_fuel(pow16, 7);
}

/// Parses a `#RRGGBB` swatch; `None` for anything malformed.
pub fn parse_hex_color(hex: &str) -> (r: Option<Rgb>)
    ensures
        r == spec_parse_hex_color(hex@),
        hex@.len() == 7 && hex@[0] == '#' && (forall|i: int| 1 <= i < 7 ==> in_hex_ranges(#[trigger] hex@[i]))
            ==> (r matches Some(c) && c.r * 65536 + c.g * 256 + c.b == base16_digit(hex@[1]) * 1048576
            + base16_digit(hex@[2]) * 65536 + base16_digit(hex@[3]) * 4096 + base16_digit(hex@[4]) * 256
            + base16_digit(hex@[5]) * 16 + base16_digit(hex@[6])),
{
    proof {
        if hex@.len() == 7 && hex@[0] == '#' && (forall|i: int| 1 <= i < 7 ==> in_hex_ranges(#[trigger] hex@[i])) {
            lemma_swatch_parses(hex@);
        }
    }
    let n = hex.unicode_len();
    if n != 7 || hex.get_char(0) != '#' {
        return None;
    }
    let ghost rest = hex@.subrange(1, 7);
    let value = match read_hex(hex, 1, 7) {
        Some(v) => v,
        None => {
            if hex.get_char(1) != '+' {
                assert(rest[0] == hex@[1]);
                return None;
            }
            match read_hex(hex, 2, 7) {
                Some(v) => {
                    assert(rest.subrange(1, 6) =~= hex@.subrange(2, 7));
                    v
                },
                None => {
                    assert(rest.subrange(1, 6) =~= hex@.subrange(2, 7));
                    return None;
                },
            }
        },
    };
    Some(rgb_from(value))
}

fn rgb_from(v: u32) -> (c: Rgb)
    ensures
        c == rgb_of(v as nat),
{
    assert((v >> 16u32) & 0xffu32 == (v / 65536) % 256) by (bit_vector);
    assert((v >> 8u32) & 0xffu32 == (v / 256) % 256) by (bit_vector);
    assert(v & 0xffu32 == v % 256) by (bit_vector);
    Rgb { r: ((v >> 16) & 0xff) as u8, g: ((v >> 8) & 0xff) as u8, b: (v & 0xff) as u8 }
}


// --- swatch laws ----------------------------------------------------------------

/// A character is a hex digit: `0`–`9`, `a`–`f` or `A`–`F`.
pub open spec fn in_hex_ranges(c: char) -> bool {
    ('0' <= c && c <= '9') || ('a' <= c && c <= 'f') || ('A' <= c && c <= 'F')
}

/// The base-16 value of a hex digit, read from its code point.
pub open spec fn base16_digit(c: char) -> int {
    if c <= '9' {
        c as int - 48
    } else if c <= 'F' {
        c as int - 55
    } else {
        c as int - 87
    }
}

/// The swatch parser reads exactly the digits `0`–`9`, `a`–`f`, `A`–`F`,
/// each at its base-16 value.
pub proof fn lemma_hex_digit_exact(c: char)
    ensures
        is_hex_char(c) <==> in_hex_ranges(c),
        in_hex_ranges(c) ==> hex_value(c) == base16_digit(c) && 0 <= base16_digit(c) < 16,
{
}

/// Every `#` followed by six hex digits parses, to the color whose 24-bit
/// value `r * 65536 + g * 256 + b` is the six digits read in base 16.
pub proof fn lemma_swatch_parses(s: Seq<char>)
    requires
        s.len() == 7,
        s[0] == '#',
        forall|i: int| 1 <= i < 7 ==> in_hex_ranges(#[trigger] s[i]),
    ensures
        spec_parse_hex_color(s) is Some,
        ({
            let c = spec_parse_hex_color(s).unwrap();
            c.r * 65536 + c.g * 256 + c.b == base16_digit(s[1]) * 1048576 + base16_digit(s[2]) * 65536
                + base16_digit(s[3]) * 4096 + base16_digit(s[4]) * 256 + base16_digit(s[5]) * 16
                + base16_digit(s[6])
        }),
{
    let d = s.subrange(1, 7);
    assert forall|i: int| 0 <= i < d.len() implies is_hex_char(#[trigger] d[i]) by {
        lemma_hex_digit_exact(s[i + 1]);
    }
    assert(swatch_digits(s) == Some(d));
    let v0 = base16_digit(s[1]);
    let v1 = base16_digit(s[2]);
    let v2 = base16_digit(s[3]);
    let v3 = base16_digit(s[4]);
    let v4 = base16_digit(s[5]);
    let v5 = base16_digit(s[6]);
    lemma_hex_digit_exact(s[1]);
    lemma_hex_digit_exact(s[2]);
    lemma_hex_digit_exact(s[3]);
    lemma_hex_digit_exact(s[4]);
    lemma_hex_digit_exact(s[5]);
    lemma_hex_digit_exact(s[6]);
    assert(d.drop_last().drop_last().drop_last().drop_last().drop_last().drop_last() =~= Seq::<char>::empty());
    reveal_with_fuel(hex_number, 7);
    assert(d.drop_last().drop_last().drop_last().drop_last().drop_last() =~= seq![s[1]]);
    assert(d.drop_last().drop_last().drop_last().drop_last() =~= seq![s[1], s[2]]);
    assert(d.drop_last().drop_last().drop_last() =~= seq![s[1], s[2], s[3]]);
    assert(d.drop_last().drop_last() =~= seq![s[1], s[2], s[3], s[4]]);
    assert(d.drop_last() =~= seq![s[1], s[2], s[3], s[4], s[5]]);
    let v = hex_number(d);
    assert(v == ((((v0 * 16 + v1) * 16 + v2) * 16 + v3) * 16 + v4) * 16 + v5);
    assert(v == v0 * 1048576 + v1 * 65536 + v2 * 4096 + v3 * 256 + v4 * 16 + v5) by (nonlinear_arith)
        requires
            v == ((((v0 * 16 + v1) * 16 + v2) * 16 + v3) * 16 + v4) * 16 + v5,
    ;
    assert(v < 16777216) by (nonlinear_arith)
        requires
            v == v0 * 1048576 + v1 * 65536 + v2 * 4096 + v3 * 256 + v4 * 16 + v5,
            0 <= v0 < 16, 0 <= v1 < 16, 0 <= v2 < 16, 0 <= v3 < 16, 0 <= v4 < 16, 0 <= v5 < 16,
    ;
    lemma_rgb_recomposes(v as u32);
}

proof fn lemma_rgb_recomposes(x: u32)
    requires
        x < 16777216,
    ensures
        ((x / 65536) % 256) * 65536 + ((x / 256) % 256) * 256 + x % 256 == x,
{
    assert(((x / 65536) % 256) * 65536 + ((x / 256) % 256) * 256 + x % 256 == x) by (bit_vector)
        requires
            x < 16777216u32,
    ;
}

/// A swatch of the right shape with a character outside the hex digits among
/// its last five places is rejected.
pub proof fn lemma_swatch_rejects_non_hex(s: Seq<char>, i: int)
    requires
        s.len() == 7,
        2 <= i < 7,
        !in_hex_ranges(s[i]),
    ensures
        spec_parse_hex_color(s) is None,
{
    lemma_hex_digit_exact(s[i]);
    if s[0] == '#' {
        let rest = s.subrange(1, 7);
        assert(rest[i - 1] == s[i]);
        assert(!all_hex(rest));
        assert(rest.subrange(1, 6)[i - 2] == s[i]);
    }
}

} // verus!

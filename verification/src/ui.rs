//! The integer text that the screens show: stat names, run-time readouts and
//! the hint on a locked minion card.

use vstd::prelude::*;
use crate::data::EffectStat;
use vstd::arithmetic::div_mod::lemma_fundamental_div_mod_converse;
use crate::text::{decimal, push_decimal};

verus! {

pub open spec fn spec_stat_label(stat: EffectStat) -> Seq<char> {
    match stat {
        EffectStat::GoldPerClick => "gold per click"@,
        EffectStat::GoldPerSecond => "gold per second"@,
        EffectStat::MinionEfficiency => "minion efficiency"@,
        EffectStat::DiscoveryChance => "discovery chance"@,
        EffectStat::HoardPointGain => "Hoard Point gain"@,
        EffectStat::HireDiscount => "hire discount"@,
        EffectStat::AllGold => "all gold"@,
        EffectStat::MinionCap => "minion soft cap"@,
    }
}

/// The phrase an effect description uses for a stat.
pub fn stat_label(stat: EffectStat) -> (r: &'static str)
    ensures
        r@ == spec_stat_label(stat),
{
    match stat {
        EffectStat::GoldPerClick => "gold per click",
        EffectStat::GoldPerSecond => "gold per second",
        EffectStat::MinionEfficiency => "minion efficiency",
        EffectStat::DiscoveryChance => "discovery chance",
        EffectStat::HoardPointGain => "Hoard Point gain",
        EffectStat::HireDiscount => "hire discount",
        EffectStat::AllGold => "all gold",
        EffectStat::MinionCap => "minion soft cap",
    }
}

/// `Xh Ym Zs` for a whole number of seconds, dropping empty leading units.
pub open spec fn duration_text(total: nat) -> Seq<char> {
    let h = total / 3600;
    let m = (total % 3600) / 60;
    let s = total % 60;
    if h > 0 {
        decimal(h) + "h "@ + decimal(m) + "m "@ + decimal(s) + "s"@
    } else if m > 0 {
        decimal(m) + "m "@ + decimal(s) + "s"@
    } else {
        decimal(s) + "s"@
    }
}

/// Formats an elapsed whole-second count as `Xh Ym Zs`, dropping empty
/// leading units (`59s`, `1m 0s`, `1h 0m 5s`).
pub fn format_duration(total_secs: u64) -> (r: String)
    ensures
        r@ == duration_text(total_secs as nat),
{
    let h = total_secs / 3600;
    let m = (total_secs % 3600) / 60;
    let s = total_secs % 60;
    let mut out = String::new();
    if h > 0 {
        push_decimal(&mut out, h);
        out.append("h ");
        push_decimal(&mut out, m);
        out.append("m ");
    } else if m > 0 {
        push_decimal(&mut out, m);
        out.append("m ");
    }
    push_decimal(&mut out, s);
    out.append("s");
    proof {
        assert(out@ =~= duration_text(total_secs as nat));
    }
    out
}

/// What a locked minion card asks the player to reach.
pub open spec fn locked_hint_text(prestige_count: u32, prestige_required: u32, unlock_at: u32) -> Seq<char> {
    if prestige_count < prestige_required {
        "Requires Prestige "@ + decimal(prestige_required as nat)
    } else {
        "Unlocks at "@ + decimal(unlock_at as nat) + " minions"@
    }
}

/// The hint on a locked minion card: the prestige gate when that is the unmet
/// one, otherwise the minion-count gate.
pub fn locked_hint(prestige_count: u32, prestige_required: u32, unlock_at: u32) -> (r: String)
    ensures
        r@ == locked_hint_text(prestige_count, prestige_required, unlock_at),
        prestige_count < prestige_required ==> r@ == "Requires Prestige "@ + decimal(prestige_required as nat),
        prestige_count >= prestige_required ==> r@ == "Unlocks at "@ + decimal(unlock_at as nat) + " minions"@,
{
    if prestige_count < prestige_required {
        let mut out = String::from_str("Requires Prestige ");
        push_decimal(&mut out, prestige_required as u64);
        out
    } else {
        let mut out = String::from_str("Unlocks at ");
        push_decimal(&mut out, unlock_at as u64);
        out.append(" minions");
        out
    }
}


/// A locked card names the prestige gate exactly when fewer prestiges than
/// required have been burned, and the minion-count gate otherwise.
pub proof fn lemma_locked_hint_names_unmet_gate(prestige_count: u32, prestige_required: u32, unlock_at: u32)
    ensures
        prestige_count < prestige_required ==> locked_hint_text(prestige_count, prestige_required, unlock_at)
            == "Requires Prestige "@ + decimal(prestige_required as nat),
        prestige_count >= prestige_required ==> locked_hint_text(prestige_count, prestige_required, unlock_at)
            == "Unlocks at "@ + decimal(unlock_at as nat) + " minions"@,
{
}


/// The run-time readout splits the seconds into hours, minutes below 60 and
/// seconds below 60, and leaves out leading units that are zero.
pub proof fn lemma_duration_units(total: nat, h: nat, m: nat, s: nat)
    requires
        h * 3600 + m * 60 + s == total,
        m < 60,
        s < 60,
    ensures
        h > 0 ==> duration_text(total) == decimal(h) + "h "@ + decimal(m) + "m "@ + decimal(s) + "s"@,
        h == 0 && m > 0 ==> duration_text(total) == decimal(m) + "m "@ + decimal(s) + "s"@,
        h == 0 && m == 0 ==> duration_text(total) == decimal(s) + "s"@,
{
    let r: int = (m * 60 + s) as int;
    assert(r < 3600) by (nonlinear_arith)
        requires r == m * 60 + s, m < 60, s < 60;
    lemma_fundamental_div_mod_converse(total as int, 3600, h as int, r);
    lemma_fundamental_div_mod_converse(r, 60, m as int, s as int);
}

} // verus!

//! Run-screen vocabulary: tabs, the bulk-buy selector, the recent-events log,
//! unlock notifications, purchase errors and the minion-tier gates.

use vstd::prelude::*;
use std::collections::VecDeque;

verus! {

/// Gameplay sub-views, in tab order.
#[derive(Debug, Clone, Copy, PartialEq, Eq, Structural)]
pub enum Screen {
    Hoard,
    Minions,
    Upgrades,
    Treasures,
    Achievements,
    Prestige,
    Dragons,
}

impl Screen {
    /// Every tab, in display order.
    pub const ALL: [Screen; 7] = [
        Screen::Hoard,
        Screen::Minions,
        Screen::Upgrades,
        Screen::Treasures,
        Screen::Achievements,
        Screen::Prestige,
        Screen::Dragons,
    ];

    pub open spec fn spec_label(self) -> Seq<char> {
        match self {
            Screen::Hoard => "Hoard"@,
            Screen::Minions => "Minions"@,
            Screen::Upgrades => "Upgrades"@,
            Screen::Treasures => "Treasures"@,
            Screen::Achievements => "Achievements"@,
            Screen::Prestige => "Prestige"@,
            Screen::Dragons => "Codex"@,
        }
    }

    /// The tab's caption.
    pub fn label(self) -> (r: &'static str)
        ensures
            r@ == self.spec_label(),
    {
        match self {
            Screen::Hoard => "Hoard",
            Screen::Minions => "Minions",
            Screen::Upgrades => "Upgrades",
            Screen::Treasures => "Treasures",
            Screen::Achievements => "Achievements",
            Screen::Prestige => "Prestige",
            Screen::Dragons => "Codex",
        }
    }
}

/// How many levels a hire/upgrade button buys at once.
#[derive(Debug, Clone, Copy, PartialEq, Eq, Structural)]
pub enum BuyMode {
    One,
    Ten,
    Max,
}

impl BuyMode {
    /// Every mode, in selector order.
    pub const ALL: [BuyMode; 3] = [BuyMode::One, BuyMode::Ten, BuyMode::Max];

    pub open spec fn spec_label(self) -> Seq<char> {
        match self {
            BuyMode::One => "x1"@,
            BuyMode::Ten => "x10"@,
            BuyMode::Max => "Max"@,
        }
    }

    /// The selector caption.
    pub fn label(self) -> (r: &'static str)
        ensures
            r@ == self.spec_label(),
    {
        match self {
            BuyMode::One => "x1",
            BuyMode::Ten => "x10",
            BuyMode::Max => "Max",
        }
    }

    pub open spec fn spec_requested(self) -> u32 {
        match self {
            BuyMode::One => 1,
            BuyMode::Ten => 10,
            BuyMode::Max => u32::MAX,
        }
    }

    /// The requested level count; `Max` asks for everything affordable.
    pub fn requested(self) -> (r: u32)
        ensures
            r == self.spec_requested(),
    {
        match self {
            BuyMode::One => 1,
            BuyMode::Ten => 10,
            BuyMode::Max => u32::MAX,
        }
    }
}

/// The last `cap` elements of `s` (all of `s` when it is no longer).
pub open spec fn newest<T>(s: Seq<T>, cap: nat) -> Seq<T> {
    if s.len() <= cap {
        s
    } else {
        s.subrange(s.len() - cap, s.len() as int)
    }
}

/// Keeping the newest `cap` of a sequence keeps `min(len, cap)` elements:
/// the tail of the sequence, in order.
pub proof fn lemma_newest_exact<T>(s: Seq<T>, cap: nat)
    ensures
        newest(s, cap).len() == if s.len() <= cap { s.len() } else { cap },
        forall|i: int| 0 <= i < newest(s, cap).len() ==> #[trigger] newest(s, cap)[i] == s[s.len()
            - newest(s, cap).len() + i],
{
}

/// A capped ring of recent player-facing events, newest last.
pub struct ActionLog {
    entries: VecDeque<String>,
}

impl View for ActionLog {
    type V = Seq<String>;

    closed spec fn view(&self) -> Seq<String> {
        self.entries@
    }
}

impl ActionLog {
    /// How many events the log keeps.
    pub const CAP: usize = 8;

    #[verifier::type_invariant]
    spec fn bounded(self) -> bool {
        self.entries@.len() <= Self::CAP
    }

    /// An empty log.
    pub fn new() -> (r: Self)
        ensures
            r@ == Seq::<String>::empty(),
    {
        ActionLog { entries: VecDeque::new() }
    }

    /// Appends `message`, dropping the oldest entries beyond [`Self::CAP`].
    pub fn push(&mut self, message: String)
        ensures
            final(self)@ == newest(old(self)@.push(message), Self::CAP as nat),
            final(self)@.len() <= Self::CAP,
            final(self)@.len() == if old(self)@.len() + 1 <= Self::CAP {
                old(self)@.len() + 1
            } else {
                Self::CAP as nat
            },
            final(self)@.last() == message,
            forall|i: int| 0 <= i < final(self)@.len() ==> #[trigger] final(self)@[i] == old(self)@.push(
                message,
            )[old(self)@.len() + 1 - final(self)@.len() + i],
    {
        proof {
            use_type_invariant(&*self);
            lemma_newest_exact(self.entries@.push(message), Self::CAP as nat);
        }
        let ghost start = self.entries@.push(message);
        let mut entries: VecDeque<String> = VecDeque::new();
        std::mem::swap(&mut entries, &mut self.entries);
        entries.push_back(message);
        assert(entries@ =~= start.subrange(0, start.len() as int));
        while entries.len() > Self::CAP
            invariant
                start.len() <= Self::CAP + 1,
                1 <= entries@.len() <= start.len(),
                entries@.len() == start.len() || entries@.len() >= Self::CAP,
                entries@ == start.subrange(start.len() - entries@.len(), start.len() as int),
            decreases entries@.len(),
        {
            entries.pop_front();
            assert(entries@ =~= start.subrange(start.len() - entries@.len(), start.len() as int));
        }
        assert(entries@ =~= newest(start, Self::CAP as nat));
        self.entries = entries;
    }

    /// The entries, oldest first.
    pub fn entries(&self) -> (r: &VecDeque<String>)
        ensures
            r@ == self@,
            r@.len() <= Self::CAP,
    {
        proof { use_type_invariant(self); }
        &self.entries
    }

    /// Whether nothing has been logged yet.
    pub fn is_empty(&self) -> (r: bool)
        ensures
            r == (self@.len() == 0),
    {
        self.entries.len() == 0
    }
}

impl Default for ActionLog {
    fn default() -> (r: Self)
        ensures
            r@ == Seq::<String>::empty(),
    {
        ActionLog::new()
    }
}

/// Something newly unlocked this frame, for notifications.
#[derive(Debug, Clone, PartialEq, Eq)]
pub enum UnlockEvent {
    Achievement { name: String },
    Dragon { name: String },
}

/// Why a purchase was refused.
#[derive(Debug, Clone, Copy, PartialEq, Eq, Structural)]
pub enum BuyError {
    UnknownId,
    MaxLevel,
    CannotAfford,
}

/// Sum of a list of counts.
pub open spec fn count_sum(s: Seq<u32>) -> nat
    decreases s.len(),
{
    if s.len() == 0 {
        0
    } else {
        count_sum(s.drop_last()) + s.last() as nat
    }
}

/// Counting nothing gives zero.
pub proof fn lemma_count_sum_empty()
    ensures
        count_sum(Seq::<u32>::empty()) == 0,
{
}

/// Counting is additive: one more tier adds exactly its count.
pub proof fn lemma_count_sum_push(s: Seq<u32>, x: u32)
    ensures
        count_sum(s.push(x)) == count_sum(s) + x,
{
    assert(s.push(x).drop_last() =~= s);
}

/// Counting is additive over concatenation: every tier of both lists counts.
pub proof fn lemma_count_sum_concat(s: Seq<u32>, t: Seq<u32>)
    ensures
        count_sum(s + t) == count_sum(s) + count_sum(t),
    decreases t.len(),
{
    if t.len() == 0 {
        assert(s + t =~= s);
    } else {
        lemma_count_sum_concat(s, t.drop_last());
        assert((s + t).drop_last() =~= s + t.drop_last());
        lemma_count_sum_push(s + t.drop_last(), t.last());
        lemma_count_sum_push(t.drop_last(), t.last());
        assert(t.drop_last().push(t.last()) =~= t);
        assert((s + t.drop_last()).push(t.last()) =~= s + t);
    }
}

/// Total minions across every tier: the base tier plus each extra tier's count.
pub fn total_minions(goblins: u32, tier_counts: &[u32]) -> (r: u32)
    requires
        goblins + count_sum(tier_counts@) <= u32::MAX,
    ensures
        r == goblins + count_sum(tier_counts@),
{
    let mut total: u32 = goblins;
    let mut i: usize = 0;
    while i < tier_counts.len()
        invariant
            i <= tier_counts@.len(),
            goblins + count_sum(tier_counts@) <= u32::MAX,
            total == goblins + count_sum(tier_counts@.subrange(0, i as int)),
        decreases tier_counts@.len() - i,
    {
        proof {
            assert(tier_counts@.subrange(0, i + 1).drop_last() =~= tier_counts@.subrange(0, i as int));
            lemma_count_sum_prefix(tier_counts@, i + 1);
        }
        total = total + tier_counts[i];
        i = i + 1;
    }
    assert(tier_counts@.subrange(0, i as int) =~= tier_counts@);
    total
}

proof fn lemma_count_sum_prefix(s: Seq<u32>, k: int)
    requires
        0 <= k <= s.len(),
    ensures
        count_sum(s.subrange(0, k)) <= count_sum(s),
    decreases s.len() - k,
{
    if k < s.len() {
        lemma_count_sum_prefix(s, k + 1);
        assert(s.subrange(0, k + 1).drop_last() =~= s.subrange(0, k));
    } else {
        assert(s.subrange(0, k) =~= s);
    }
}

/// An extra minion tier can be hired once total minions reach its
/// `unlock_at` and enough prestiges have been burned.
pub fn minion_unlocked(total_minions: u32, prestige_count: u32, unlock_at: u32, prestige_required: u32) -> (r: bool)
    ensures
        r == (total_minions >= unlock_at && prestige_count >= prestige_required),
{
    total_minions >= unlock_at && prestige_count >= prestige_required
}

/// A prestige-tree node unlocks once its prerequisite (if it has one) has at
/// least one level; `prereq_level` is that prerequisite's current level, or
/// `None` for a root node.
pub fn prestige_prereq_met(prereq_level: Option<u32>) -> (r: bool)
    ensures
        r == match prereq_level {
            None => true,
            Some(level) => level >= 1,
        },
{
    match prereq_level {
        None => true,
        Some(level) => level >= 1,
    }
}

} // verus!

//! Expedition treasure rolls: a discovery gate, then a rarity-weighted pick
//! among the treasures that are both unlocked at the current prestige and not
//! yet in the hoard. Drop weights are integers, so a uniform roll below the
//! pool's total weight lands on each treasure exactly `drop_weight` times out
//! of `total`.

use vstd::prelude::*;
use vstd::set_lib::{lemma_int_range, set_int_range};

verus! {

/// What the roll reads of a catalog treasure.
#[derive(Debug, Clone)]
pub struct TreasureEntry {
    pub id: String,
    /// Relative weight for the pick among reachable treasures.
    pub drop_weight: u32,
    /// Prestiges completed before the treasure can be found.
    pub prestige_required: u32,
}

/// Result of a roll; `Found` carries the catalog index of the treasure.
#[derive(Debug, Clone, Copy, PartialEq, Eq, Structural)]
pub enum ExploreOutcome {
    /// The discovery gate failed: the expedition came back empty.
    NothingFound,
    Found(usize),
    /// Nothing is left within reach: every unlocked treasure is owned.
    AllDiscovered,
}

/// `id` occurs in `list`.
pub open spec fn listed(id: Seq<char>, list: Seq<String>) -> bool {
    exists|j: int| 0 <= j < list.len() && (#[trigger] list[j])@ == id
}

/// A treasure can be found now: unlocked at `prestige_count`, not yet owned.
pub open spec fn reachable(t: TreasureEntry, discovered: Seq<String>, prestige_count: u32) -> bool {
    t.prestige_required <= prestige_count && !listed(t.id@, discovered)
}

/// Catalog indices below `n` of reachable treasures, in catalog order.
pub open spec fn pool_upto(
    ts: Seq<TreasureEntry>,
    discovered: Seq<String>,
    prestige_count: u32,
    n: int,
) -> Seq<int>
    decreases n,
{
    if n <= 0 {
        Seq::empty()
    } else {
        let prev = pool_upto(ts, discovered, prestige_count, n - 1);
        if reachable(ts[n - 1], discovered, prestige_count) {
            prev.push(n - 1)
        } else {
            prev
        }
    }
}

/// Catalog indices of every reachable treasure, in catalog order.
pub open spec fn pool(ts: Seq<TreasureEntry>, discovered: Seq<String>, prestige_count: u32) -> Seq<int> {
    pool_upto(ts, discovered, prestige_count, ts.len() as int)
}

/// Total drop weight of the first `k` pool entries.
pub open spec fn prefix_weight(ts: Seq<TreasureEntry>, p: Seq<int>, k: int) -> nat
    decreases k,
{
    if k <= 0 {
        0
    } else {
        prefix_weight(ts, p, k - 1) + ts[p[k - 1]].drop_weight as nat
    }
}

/// Total drop weight of a pool.
pub open spec fn total_weight(ts: Seq<TreasureEntry>, p: Seq<int>) -> nat {
    prefix_weight(ts, p, p.len() as int)
}

/// Pool position `k` is the one that `roll` selects: the roll falls in the
/// band `[prefix(k), prefix(k + 1))` of cumulative weights; when every weight
/// is zero, the last entry is taken.
pub open spec fn selects(ts: Seq<TreasureEntry>, p: Seq<int>, roll: int, k: int) -> bool {
    &&& 0 <= k < p.len()
    &&& if total_weight(ts, p) > 0 {
        prefix_weight(ts, p, k) <= roll < prefix_weight(ts, p, k + 1)
    } else {
        k == p.len() - 1
    }
}

pub open spec fn as_ints(v: Seq<usize>) -> Seq<int> {
    v.map_values(|x: usize| x as int)
}

/// The outcome of a roll over `ts` given the discovery gate `hit` and, on a
/// hit, the uniform `roll` below the pool's total weight.
pub open spec fn roll_result(
    ts: Seq<TreasureEntry>,
    discovered: Seq<String>,
    prestige_count: u32,
    hit: bool,
    roll: int,
    o: ExploreOutcome,
) -> bool {
    let p = pool(ts, discovered, prestige_count);
    if p.len() == 0 {
        o == ExploreOutcome::AllDiscovered
    } else if !hit {
        o == ExploreOutcome::NothingFound
    } else {
        exists|k: int| #[trigger] selects(ts, p, roll, k) && o == ExploreOutcome::Found(p[k] as usize)
    }
}

// --- facts about the pool ---------------------------------------------------

/// Pool entries are increasing catalog indices below `n`, each reachable, and
/// every reachable index below `n` is in the pool.
pub proof fn lemma_pool_upto(ts: Seq<TreasureEntry>, discovered: Seq<String>, prestige_count: u32, n: int)
    requires
        0 <= n <= ts.len(),
    ensures
        ({
            let p = pool_upto(ts, discovered, prestige_count, n);
            &&& p.len() <= n
            &&& forall|a: int| 0 <= a < p.len() ==> 0 <= #[trigger] p[a] < n
            &&& forall|a: int| 0 <= a < p.len() ==> reachable(ts[#[trigger] p[a]], discovered, prestige_count)
            &&& forall|a: int, b: int| 0 <= a < b < p.len() ==> #[trigger] p[a] < #[trigger] p[b]
            &&& forall|i: int| 0 <= i < n && reachable(#[trigger] ts[i], discovered, prestige_count)
                ==> p.contains(i)
        }),
    decreases n,
{
    if n > 0 {
        lemma_pool_upto(ts, discovered, prestige_count, n - 1);
        let prev = pool_upto(ts, discovered, prestige_count, n - 1);
        let p = pool_upto(ts, discovered, prestige_count, n);
        assert forall|i: int| 0 <= i < n && reachable(#[trigger] ts[i], discovered, prestige_count)
            implies p.contains(i) by {
            if i < n - 1 {
                assert(prev.contains(i));
                let a = choose|a: int| 0 <= a < prev.len() && prev[a] == i;
                assert(p[a] == i);
            } else {
                assert(p[p.len() - 1] == i);
            }
        }
    }
}

/// Cumulative weights start at zero and each pool entry adds exactly its
/// drop weight.
pub proof fn lemma_prefix_step(ts: Seq<TreasureEntry>, p: Seq<int>, k: int)
    requires
        0 <= k,
    ensures
        prefix_weight(ts, p, 0) == 0,
        prefix_weight(ts, p, k + 1) == prefix_weight(ts, p, k) + ts[p[k]].drop_weight,
{
}

/// Cumulative weights never decrease along the pool.
pub proof fn lemma_prefix_monotone(ts: Seq<TreasureEntry>, p: Seq<int>, a: int, b: int)
    requires
        0 <= a <= b,
    ensures
        prefix_weight(ts, p, a) <= prefix_weight(ts, p, b),
    decreases b - a,
{
    if a < b {
        lemma_prefix_monotone(ts, p, a, b - 1);
    }
}

/// A roll selects at most one pool position.
pub proof fn lemma_selects_unique(ts: Seq<TreasureEntry>, p: Seq<int>, roll: int, k1: int, k2: int)
    requires
        selects(ts, p, roll, k1),
        selects(ts, p, roll, k2),
    ensures
        k1 == k2,
{
    if total_weight(ts, p) > 0 && k1 != k2 {
        if k1 < k2 {
            lemma_prefix_monotone(ts, p, k1 + 1, k2);
        } else {
            lemma_prefix_monotone(ts, p, k2 + 1, k1);
        }
    }
}


/// Not yet discovered: no entry of `discovered` carries the id.
pub open spec fn undiscovered(id: Seq<char>, discovered: Seq<String>) -> bool {
    forall|j: int| 0 <= j < discovered.len() ==> (#[trigger] discovered[j])@ != id
}

/// The pool is exactly the catalog treasures whose prestige requirement is at
/// most `prestige_count` and whose id is not among the discovered ones.
pub proof fn lemma_pool_exact(ts: Seq<TreasureEntry>, discovered: Seq<String>, prestige_count: u32)
    ensures
        forall|i: int| #[trigger] pool(ts, discovered, prestige_count).contains(i) <==> (0 <= i < ts.len()
            && ts[i].prestige_required <= prestige_count && undiscovered(ts[i].id@, discovered)),
{
    lemma_pool_upto(ts, discovered, prestige_count, ts.len() as int);
    let p = pool(ts, discovered, prestige_count);
    assert forall|i: int| #[trigger] p.contains(i) <==> (0 <= i < ts.len() && ts[i].prestige_required
        <= prestige_count && undiscovered(ts[i].id@, discovered)) by {
        if p.contains(i) {
            let a = choose|a: int| 0 <= a < p.len() && p[a] == i;
            assert(reachable(ts[p[a]], discovered, prestige_count));
            assert forall|j: int| 0 <= j < discovered.len() implies (#[trigger] discovered[j])@ != ts[i].id@ by {
                if discovered[j]@ == ts[i].id@ {
                    assert(listed(ts[i].id@, discovered));
                }
            }
        }
        if 0 <= i < ts.len() && ts[i].prestige_required <= prestige_count && undiscovered(ts[i].id@, discovered) {
            if listed(ts[i].id@, discovered) {
                let j = choose|j: int| 0 <= j < discovered.len() && (#[trigger] discovered[j])@ == ts[i].id@;
                assert(discovered[j]@ != ts[i].id@);
            }
            assert(reachable(ts[i], discovered, prestige_count));
        }
    }
}

// --- executable roll ----------------------------------------------------------

fn is_listed(id: &String, list: &[String]) -> (r: bool)
    ensures
        r == listed(id@, list@),
{
    let mut j: usize = 0;
    while j < list.len()
        invariant
            j <= list@.len(),
            forall|q: int| 0 <= q < j ==> (#[trigger] list@[q])@ != id@,
        decreases list@.len() - j,
    {
        if list[j] == *id {
            assert(list@[j as int]@ == id@);
            return true;
        }
        j = j + 1;
    }
    false
}

/// Catalog indices of the treasures that can be found now — unlocked at
/// `prestige_count` and not in `discovered` — in catalog order.
pub fn available_treasures(
    treasures: &[TreasureEntry],
    discovered: &[String],
    prestige_count: u32,
) -> (r: Vec<usize>)
    ensures
        as_ints(r@) == pool(treasures@, discovered@, prestige_count),
        forall|a: int| 0 <= a < r@.len() ==> #[trigger] r@[a] < treasures@.len(),
        forall|a: int| 0 <= a < r@.len() ==> treasures@[#[trigger] r@[a] as int].prestige_required <= prestige_count
            && undiscovered(treasures@[r@[a] as int].id@, discovered@),
        forall|i: int| 0 <= i < treasures@.len() && (#[trigger] treasures@[i]).prestige_required <= prestige_count
            && undiscovered(treasures@[i].id@, discovered@) ==> r@.contains(i as usize),
{
    let mut out: Vec<usize> = Vec::new();
    let mut i: usize = 0;
    while i < treasures.len()
        invariant
            i <= treasures@.len(),
            as_ints(out@) == pool_upto(treasures@, discovered@, prestige_count, i as int),
        decreases treasures@.len() - i,
    {
        let t = &treasures[i];
        let unlocked = t.prestige_required <= prestige_count;
        if unlocked && !is_listed(&t.id, discovered) {
            out.push(i);
            assert(as_ints(out@) =~= as_ints(out@.drop_last()).push(i as int));
        }
        i = i + 1;
    }
    proof {
        lemma_pool_upto(treasures@, discovered@, prestige_count, treasures@.len() as int);
        lemma_pool_exact(treasures@, discovered@, prestige_count);
        let p = pool(treasures@, discovered@, prestige_count);
        assert forall|a: int| 0 <= a < out@.len() implies #[trigger] out@[a] < treasures@.len() by {
            assert(as_ints(out@)[a] == out@[a] as int);
        }
        assert forall|a: int| 0 <= a < out@.len() implies treasures@[#[trigger] out@[a] as int].prestige_required
            <= prestige_count && undiscovered(treasures@[out@[a] as int].id@, discovered@) by {
            assert(as_ints(out@)[a] == out@[a] as int);
            assert(p.contains(out@[a] as int));
        }
        assert forall|i: int| 0 <= i < treasures@.len() && (#[trigger] treasures@[i]).prestige_required
            <= prestige_count && undiscovered(treasures@[i].id@, discovered@) implies out@.contains(i as usize) by {
            assert(p.contains(i));
            let a = choose|a: int| 0 <= a < p.len() && p[a] == i;
            assert(as_ints(out@)[a] == out@[a] as int);
            assert(out@[a] == i as usize);
        }
    }
    out
}

/// Total drop weight of the pool entries `pool`.
pub fn pool_weight(treasures: &[TreasureEntry], pool: &[usize]) -> (r: u32)
    requires
        forall|a: int| 0 <= a < pool@.len() ==> #[trigger] pool@[a] < treasures@.len(),
        total_weight(treasures@, as_ints(pool@)) <= u32::MAX,
    ensures
        r == total_weight(treasures@, as_ints(pool@)),
{
    let ghost p = as_ints(pool@);
    let mut sum: u32 = 0;
    let mut k: usize = 0;
    while k < pool.len()
        invariant
            k <= pool@.len(),
            p == as_ints(pool@),
            forall|a: int| 0 <= a < pool@.len() ==> #[trigger] pool@[a] < treasures@.len(),
            total_weight(treasures@, p) <= u32::MAX,
            sum == prefix_weight(treasures@, p, k as int),
        decreases pool@.len() - k,
    {
        proof { lemma_prefix_monotone(treasures@, p, k + 1, p.len() as int); }
        sum = sum + treasures[pool[k]].drop_weight;
        k = k + 1;
    }
    sum
}

/// The pool position a uniform `roll` below the pool's total weight lands on:
/// walking the pool in order, the first entry whose cumulative weight exceeds
/// the roll; the last entry when every weight is zero.
pub fn pick_weighted(treasures: &[TreasureEntry], pool: &[usize], roll: u32) -> (k: usize)
    requires
        pool@.len() > 0,
        forall|a: int| 0 <= a < pool@.len() ==> #[trigger] pool@[a] < treasures@.len(),
        total_weight(treasures@, as_ints(pool@)) <= u32::MAX,
        roll < total_weight(treasures@, as_ints(pool@)) || roll == 0,
    ensures
        selects(treasures@, as_ints(pool@), roll as int, k as int),
        total_weight(treasures@, as_ints(pool@)) > 0 ==> forall|j: int| 0 <= j < pool@.len() ==> (
            k == j <==> #[trigger] prefix_weight(treasures@, as_ints(pool@), j) <= roll
                < prefix_weight(treasures@, as_ints(pool@), j + 1)),
{
    let ghost p = as_ints(pool@);
    let mut rest: u32 = roll;
    let mut k: usize = 0;
    while k < pool.len()
        invariant
            k <= pool@.len(),
            p == as_ints(pool@),
            forall|a: int| 0 <= a < pool@.len() ==> #[trigger] pool@[a] < treasures@.len(),
            prefix_weight(treasures@, p, k as int) <= roll,
            rest == roll - prefix_weight(treasures@, p, k as int),
        decreases pool@.len() - k,
    {
        let w = treasures[pool[k]].drop_weight;
        if rest < w {
            proof {
                lemma_prefix_monotone(treasures@, p, k + 1, p.len() as int);
                assert(prefix_weight(treasures@, p, k + 1) == prefix_weight(treasures@, p, k as int) + w);
                assert(selects(treasures@, p, roll as int, k as int));
                assert forall|j: int| 0 <= j < pool@.len() implies (
                    k == j <==> #[trigger] prefix_weight(treasures@, p, j) <= roll < prefix_weight(treasures@, p, j + 1))
                by {
                    if j < k {
                        lemma_prefix_monotone(treasures@, p, j + 1, k as int);
                    } else if j > k {
                        lemma_prefix_monotone(treasures@, p, k + 1, j);
                    }
                }
            }
            return k;
        }
        rest = rest - w;
        k = k + 1;
    }
    proof {
        assert(total_weight(treasures@, p) == 0);
    }
    pool.len() - 1
}

/// Rolls an expedition: `AllDiscovered` when nothing is within reach (the
/// gate and the roll are then not consulted), `NothingFound` when the
/// discovery gate `hit` failed, else the treasure that `roll` selects.
pub fn roll_treasure(
    treasures: &[TreasureEntry],
    discovered: &[String],
    prestige_count: u32,
    hit: bool,
    roll: u32,
) -> (o: ExploreOutcome)
    requires
        ({
            let p = pool(treasures@, discovered@, prestige_count);
            p.len() > 0 && hit ==> total_weight(treasures@, p) <= u32::MAX && (roll
                < total_weight(treasures@, p) || roll == 0)
        }),
    ensures
        roll_result(treasures@, discovered@, prestige_count, hit, roll as int, o),
        o matches ExploreOutcome::Found(i) ==> i < treasures@.len() && reachable(
            treasures@[i as int],
            discovered@,
            prestige_count,
        ),
        o matches ExploreOutcome::Found(i) ==> treasures@[i as int].prestige_required <= prestige_count
            && undiscovered(treasures@[i as int].id@, discovered@),
        !hit && !(o is AllDiscovered) ==> o is NothingFound,
        hit && !(o is AllDiscovered) ==> o is Found,
        o is AllDiscovered <==> forall|i: int| 0 <= i < treasures@.len() ==> !((#[trigger] treasures@[i]).prestige_required
            <= prestige_count && undiscovered(treasures@[i].id@, discovered@)),
{
    let available = available_treasures(treasures, discovered, prestige_count);
    let ghost p = pool(treasures@, discovered@, prestige_count);
    if available.len() == 0 {
        return ExploreOutcome::AllDiscovered;
    }
    proof {
        let i0 = available@[0] as int;
        assert(treasures@[available@[0] as int].prestige_required <= prestige_count);
        assert(0 <= i0 < treasures@.len());
        assert(treasures@[i0].prestige_required <= prestige_count && undiscovered(treasures@[i0].id@, discovered@));
    }
    if !hit {
        return ExploreOutcome::NothingFound;
    }
    let k = pick_weighted(treasures, available.as_slice(), roll);
    let i = available[k];
    proof {
        lemma_pool_upto(treasures@, discovered@, prestige_count, treasures@.len() as int);
        assert(as_ints(available@)[k as int] == i as int);
        assert(selects(treasures@, p, roll as int, k as int));
        assert(treasures@[available@[k as int] as int].prestige_required <= prestige_count);
    }
    ExploreOutcome::Found(i)
}

/// Applies an expedition's outcome to the hoard's discovery list and says
/// whether the expedition is paid for. A find is recorded (and raises the
/// price of the next expedition, which grows with the list); an empty-handed
/// return is paid for but records nothing; a roll with nothing left within
/// reach is neither paid for nor recorded.
pub fn settle_expedition(
    treasures: &[TreasureEntry],
    discovered: &mut Vec<String>,
    outcome: ExploreOutcome,
) -> (charged: bool)
    requires
        outcome matches ExploreOutcome::Found(i) ==> i < treasures@.len(),
    ensures
        charged == !(outcome is AllDiscovered),
        match outcome {
            ExploreOutcome::Found(i) => final(discovered)@ == old(discovered)@.push(
                treasures@[i as int].id,
            ),
            _ => final(discovered)@ == old(discovered)@,
        },
{
    match outcome {
        ExploreOutcome::AllDiscovered => false,
        ExploreOutcome::NothingFound => true,
        ExploreOutcome::Found(i) => {
            discovered.push(treasures[i].id.clone());
            true
        },
    }
}

// --- laws ---------------------------------------------------------------------

/// Burning more hoards never takes a treasure out of reach: every treasure in
/// the pool at `p1` prestiges is still in the pool at any `p2 >= p1`.
pub proof fn lemma_pool_grows_with_prestige(
    ts: Seq<TreasureEntry>,
    discovered: Seq<String>,
    p1: u32,
    p2: u32,
    i: int,
)
    requires
        p1 <= p2,
        pool(ts, discovered, p1).contains(i),
    ensures
        pool(ts, discovered, p2).contains(i),
{
    lemma_pool_upto(ts, discovered, p1, ts.len() as int);
    lemma_pool_upto(ts, discovered, p2, ts.len() as int);
    let a = choose|a: int| 0 <= a < pool(ts, discovered, p1).len() && pool(ts, discovered, p1)[a] == i;
    assert(reachable(ts[pool(ts, discovered, p1)[a]], discovered, p1));
}

/// A discovered treasure is never found again: once its id is recorded, no
/// catalog entry with that id is in the pool.
pub proof fn lemma_discovery_leaves_pool(
    ts: Seq<TreasureEntry>,
    discovered: Seq<String>,
    prestige_count: u32,
    found: String,
    i: int,
)
    requires
        0 <= i < ts.len(),
        ts[i].id@ == found@,
    ensures
        !pool(ts, discovered.push(found), prestige_count).contains(i),
{
    let d = discovered.push(found);
    lemma_pool_upto(ts, d, prestige_count, ts.len() as int);
    assert(d[d.len() - 1]@ == ts[i].id@);
    assert(listed(ts[i].id@, d));
    if pool(ts, d, prestige_count).contains(i) {
        let a = choose|a: int| 0 <= a < pool(ts, d, prestige_count).len() && pool(ts, d, prestige_count)[a] == i;
        assert(reachable(ts[pool(ts, d, prestige_count)[a]], d, prestige_count));
    }
}


/// Rarity weighting: of the `total` equally likely rolls below the pool's
/// total weight, exactly `drop_weight` select each pool entry.
pub proof fn lemma_weight_is_share(ts: Seq<TreasureEntry>, p: Seq<int>, k: int)
    requires
        0 <= k < p.len(),
        total_weight(ts, p) > 0,
    ensures
        ({
            let rolls = Set::new(|r: int| 0 <= r < total_weight(ts, p) && selects(ts, p, r, k));
            &&& rolls.finite()
            &&& rolls.len() == ts[p[k]].drop_weight
        }),
{
    let lo = prefix_weight(ts, p, k) as int;
    let hi = prefix_weight(ts, p, k + 1) as int;
    lemma_prefix_monotone(ts, p, k + 1, p.len() as int);
    lemma_int_range(lo, hi);
    let rolls = Set::new(|r: int| 0 <= r < total_weight(ts, p) && selects(ts, p, r, k));
    assert(rolls =~= set_int_range(lo, hi));
}

} // verus!

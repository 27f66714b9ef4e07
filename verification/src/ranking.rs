//! Convoy rankings: the leaderboard entry type, the ranking order, and the
//! construction of a ranked page.
//!
//! Within a convoy, entries are ordered by accuracy descending, ties broken
//! by total engagements descending, then by asset id ascending. A page is
//! the sorted prefix of the convoy's rows with ranks assigned 1 upward.

use vstd::prelude::*;
use vstd::multiset::Multiset;
use vstd::seq_lib::lemma_multiset_commutative;
use crate::accuracy::AccuracyStats;
use crate::domain::PlatformType;

verus! {

broadcast use vstd::seq_lib::group_to_multiset_ensures;

/// Mathematical model of a leaderboard entry.
pub struct EntryModel {
    pub convoy_id: u128,
    pub drone_id: u128,
    pub callsign: Seq<char>,
    pub platform_type: PlatformType,
    pub stats: AccuracyStats,
    pub accuracy_x100: u64,
    pub rank: u32,
    pub updated_at_ms: u64,
}

/// A per-asset leaderboard row: totals, streaks, derived accuracy, and the
/// 1-indexed rank within the convoy (0 before ranks are assigned).
#[derive(Debug)]
pub struct LeaderboardEntry {
    pub convoy_id: u128,
    pub drone_id: u128,
    pub callsign: String,
    pub platform_type: PlatformType,
    pub stats: AccuracyStats,
    pub accuracy_x100: u64,
    pub rank: u32,
    pub updated_at_ms: u64,
}

impl View for LeaderboardEntry {
    type V = EntryModel;

    open spec fn view(&self) -> EntryModel {
        EntryModel {
            convoy_id: self.convoy_id,
            drone_id: self.drone_id,
            callsign: self.callsign@,
            platform_type: self.platform_type,
            stats: self.stats,
            accuracy_x100: self.accuracy_x100,
            rank: self.rank,
            updated_at_ms: self.updated_at_ms,
        }
    }
}

impl LeaderboardEntry {
    /// The derived accuracy field agrees with the counters.
    pub open spec fn wf(self) -> bool {
        &&& self.stats.wf()
        &&& self.accuracy_x100 == self.stats.spec_accuracy_x100()
    }

    /// An exact copy of this entry.
    pub fn duplicate(&self) -> (e: LeaderboardEntry)
        ensures
            e@ == self@,
            e.stats == self.stats,
            e.rank == self.rank,
            e.accuracy_x100 == self.accuracy_x100,
            e.convoy_id == self.convoy_id,
            e.drone_id == self.drone_id,
            e.platform_type == self.platform_type,
            e.updated_at_ms == self.updated_at_ms,
            e.callsign@ == self.callsign@,
    {
        LeaderboardEntry {
            convoy_id: self.convoy_id,
            drone_id: self.drone_id,
            callsign: self.callsign.clone(),
            platform_type: self.platform_type,
            stats: self.stats,
            accuracy_x100: self.accuracy_x100,
            rank: self.rank,
            updated_at_ms: self.updated_at_ms,
        }
    }
}

/// Strict ranking precedence: `a` stands strictly before `b`.
pub open spec fn spec_outranks(a: LeaderboardEntry, b: LeaderboardEntry) -> bool {
    ||| a.accuracy_x100 > b.accuracy_x100
    ||| (a.accuracy_x100 == b.accuracy_x100 && a.stats.total_engagements
        > b.stats.total_engagements)
    ||| (a.accuracy_x100 == b.accuracy_x100 && a.stats.total_engagements
        == b.stats.total_engagements && a.drone_id < b.drone_id)
}

/// Exec comparison matching `spec_outranks`.
pub fn outranks(a: &LeaderboardEntry, b: &LeaderboardEntry) -> (r: bool)
    ensures
        r == spec_outranks(*a, *b),
{
    if a.accuracy_x100 != b.accuracy_x100 {
        a.accuracy_x100 > b.accuracy_x100
    } else if a.stats.total_engagements != b.stats.total_engagements {
        a.stats.total_engagements > b.stats.total_engagements
    } else {
        a.drone_id < b.drone_id
    }
}

/// A sequence is in ranking order: no later entry strictly outranks an
/// earlier one.
pub open spec fn spec_ranking_sorted(s: Seq<LeaderboardEntry>) -> bool {
    forall|i: int, j: int| 0 <= i < j < s.len() ==> !spec_outranks(#[trigger] s[j], #[trigger] s[i])
}

proof fn lemma_outranks_total(a: LeaderboardEntry, b: LeaderboardEntry, c: LeaderboardEntry)
    ensures
        spec_outranks(a, b) && !spec_outranks(c, b) ==> !spec_outranks(c, a),
        spec_outranks(a, b) ==> !spec_outranks(b, a),
{
}

/// Inserting anywhere adds one occurrence to the multiset.
pub proof fn lemma_insert_multiset<A>(s: Seq<A>, i: int, x: A)
    requires
        0 <= i <= s.len(),
    ensures
        s.insert(i, x).to_multiset() =~= s.to_multiset().insert(x),
{
    let pre = s.subrange(0, i);
    let post = s.subrange(i, s.len() as int);
    assert(s =~= pre + post);
    lemma_multiset_commutative(pre, post);
    lemma_multiset_commutative(pre.push(x), post);
}

/// Sort entries into ranking order. The result is a permutation of the
/// input, in ranking order.
pub fn sort_entries(v: Vec<LeaderboardEntry>) -> (r: Vec<LeaderboardEntry>)
    ensures
        r@.to_multiset() == v@.to_multiset(),
        r@.len() == v@.len(),
        spec_ranking_sorted(r@),
{
    let ghost all = v@;
    let mut rest = v;
    let mut out: Vec<LeaderboardEntry> = Vec::new();
    while rest.len() > 0
        invariant
            out@.to_multiset().add(rest@.to_multiset()) =~= all.to_multiset(),
            out@.len() + rest@.len() == all.len(),
            spec_ranking_sorted(out@),
        decreases rest.len(),
    {
        let ghost rest0 = rest@;
        let x = rest.pop().unwrap();
        proof {
            assert(rest0 =~= rest@.push(x));
        }
        // Find the first position whose entry is strictly outranked by x.
        let mut j: usize = 0;
        while j < out.len() && !outranks(&x, &out[j])
            invariant
                j <= out@.len(),
                forall|k: int| 0 <= k < j ==> !spec_outranks(x, #[trigger] out@[k]),
            decreases out@.len() - j,
        {
            j += 1;
        }
        let ghost out0 = out@;
        out.insert(j, x);
        proof {
            lemma_insert_multiset(out0, j as int, x);
            assert forall|p: int, q: int| 0 <= p < q < out@.len() implies !spec_outranks(
                #[trigger] out@[q],
                #[trigger] out@[p],
            ) by {
                if p < j && q == j {
                    // out@[q] is x, out@[p] stood before the insertion point
                } else if p == j && q > j {
                    // x strictly outranks the old entry at j, which precedes out@[q]
                    lemma_outranks_total(x, out0[j as int], out0[q - 1]);
                } else if p < j && q > j {
                    assert(!spec_outranks(out0[q - 1], out0[p]));
                } else if p > j && q > j {
                    assert(!spec_outranks(out0[q - 1], out0[p - 1]));
                }
            }
        }
    }
    proof {
        assert(rest@.to_multiset() =~= Multiset::<LeaderboardEntry>::empty());
        assert(out@.to_multiset() =~= all.to_multiset());
    }
    out
}

/// The entry with rank `r` and everything else unchanged.
pub open spec fn spec_with_rank(e: LeaderboardEntry, r: u32) -> EntryModel {
    EntryModel { rank: r, ..e@ }
}

/// Assign ranks 1..=len in order.
pub fn assign_ranks(v: &mut Vec<LeaderboardEntry>)
    requires
        old(v)@.len() <= u32::MAX,
    ensures
        final(v)@.len() == old(v)@.len(),
        forall|i: int|
            0 <= i < final(v)@.len() ==> (#[trigger] final(v)@[i])@ == spec_with_rank(
                old(v)@[i],
                (i + 1) as u32,
            ),
{
    let ghost orig = v@;
    let n = v.len();
    let mut i: usize = 0;
    while i < n
        invariant
            n == orig.len() <= u32::MAX,
            v@.len() == orig.len(),
            i <= n,
            forall|k: int| 0 <= k < i ==> (#[trigger] v@[k])@ == spec_with_rank(orig[k], (k + 1) as u32),
            forall|k: int| i <= k < n ==> #[trigger] v@[k] == orig[k],
        decreases n - i,
    {
        let e = vstd::std_specs::vec::vec_index_mut(v, i);
        e.rank = (i + 1) as u32;
        i += 1;
    }
}

/// Ranks are the contiguous prefix 1..=len after assignment, and assigning
/// ranks keeps the ranking order: the page invariant of a convoy ranking.
pub proof fn lemma_ranks_contiguous(before: Seq<LeaderboardEntry>, after: Seq<LeaderboardEntry>)
    requires
        after.len() == before.len(),
        after.len() <= u32::MAX,
        spec_ranking_sorted(before),
        forall|i: int|
            0 <= i < after.len() ==> (#[trigger] after[i])@ == spec_with_rank(
                before[i],
                (i + 1) as u32,
            ),
    ensures
        forall|i: int| 0 <= i < after.len() ==> (#[trigger] after[i])@.rank == i + 1,
        spec_ranking_sorted(after),
{
    assert forall|i: int, j: int| 0 <= i < j < after.len() implies !spec_outranks(
        #[trigger] after[j],
        #[trigger] after[i],
    ) by {
        assert(!spec_outranks(before[j], before[i]));
        assert(after[j].accuracy_x100 == before[j].accuracy_x100);
        assert(after[j].stats == before[j].stats);
        assert(after[j].drone_id == before[j].drone_id);
        assert(after[i].accuracy_x100 == before[i].accuracy_x100);
        assert(after[i].stats == before[i].stats);
        assert(after[i].drone_id == before[i].drone_id);
    }
}

/// Build the ranked page for a convoy: sort the rows, cap at `limit`, and
/// assign ranks 1..=min(limit, row count). Entries come out in ranking
/// order, they are a subset of the given rows, and ranks form the
/// contiguous prefix starting at 1.
pub fn build_page(rows: Vec<LeaderboardEntry>, limit: usize) -> (r: Vec<LeaderboardEntry>)
    requires
        limit <= u32::MAX,
    ensures
        r@.len() == vstd::math::min(limit as int, rows@.len() as int),
        spec_ranking_sorted(r@),
        forall|i: int| 0 <= i < r@.len() ==> (#[trigger] r@[i])@.rank == i + 1,
        spec_page_from(rows@, r@),
{
    let mut sorted = sort_entries(rows);
    let ghost full = sorted@;
    proof {
        assert(forall|k: int| 0 <= k < full.len() ==> full.to_multiset().count(#[trigger] full[k]) > 0);
    }
    if sorted.len() > limit {
        sorted.truncate(limit);
        proof {
            assert(sorted@ =~= full.subrange(0, limit as int));
        }
    }
    let ghost capped = sorted@;
    assign_ranks(&mut sorted);
    proof {
        lemma_ranks_contiguous(capped, sorted@);
        assert forall|i: int| 0 <= i < sorted@.len() implies spec_entry_from(
            rows@,
            #[trigger] sorted@[i],
        ) by {
            let w = capped[i];
            assert(full.to_multiset().count(w) > 0);
            assert(rows@.to_multiset().count(w) > 0);
            assert(rows@.contains(w));
            assert(sorted@[i]@ == spec_with_rank(w, (i + 1) as u32));
            assert(spec_strip_rank(w) == spec_strip_rank(sorted@[i]));
        }
    }
    sorted
}

/// `e` is one of `rows`, its rank aside.
pub open spec fn spec_entry_from(rows: Seq<LeaderboardEntry>, e: LeaderboardEntry) -> bool {
    exists|w: LeaderboardEntry| rows.contains(w) && spec_strip_rank(w) == spec_strip_rank(e)
}

/// Every entry of `page` is one of `rows`, its rank aside.
pub open spec fn spec_page_from(rows: Seq<LeaderboardEntry>, page: Seq<LeaderboardEntry>) -> bool {
    forall|i: int| 0 <= i < page.len() ==> spec_entry_from(rows, #[trigger] page[i])
}

/// The model of an entry with its rank field ignored (set to zero).
pub open spec fn spec_strip_rank(e: LeaderboardEntry) -> EntryModel {
    EntryModel { rank: 0, ..e@ }
}

} // verus!

//! The accuracy engine core: per-asset hit/miss counters and streak
//! accounting.
//!
//! The history of an asset is a sequence of booleans, one per recorded
//! engagement, `true` for a hit. `AccuracyStats` is the derived state:
//! total engagements, successful hits, the current run of consecutive hits,
//! and the best such run ever seen. `record` folds one engagement into the
//! state; `lemma_record_extends_history` ties each fold step to the history.

use vstd::prelude::*;

verus! {

/// Derived accuracy counters for one asset.
#[derive(Clone, Copy, PartialEq, Eq, Structural, Debug)]
pub struct AccuracyStats {
    pub total_engagements: u64,
    pub successful_hits: u64,
    pub current_streak: u64,
    pub best_streak: u64,
}

/// Number of hits in a history.
pub open spec fn count_hits(s: Seq<bool>) -> nat
    decreases s.len(),
{
    if s.len() == 0 {
        0
    } else {
        count_hits(s.drop_last()) + (if s.last() {
            1nat
        } else {
            0nat
        })
    }
}

/// Length of the run of consecutive hits ending at the most recent call.
pub open spec fn trailing_streak(s: Seq<bool>) -> nat
    decreases s.len(),
{
    if s.len() == 0 {
        0
    } else if !s.last() {
        0
    } else {
        trailing_streak(s.drop_last()) + 1
    }
}

/// The best (longest) trailing run over all prefixes of the history.
pub open spec fn best_streak_of(s: Seq<bool>) -> nat
    decreases s.len(),
{
    if s.len() == 0 {
        0
    } else if best_streak_of(s.drop_last()) >= trailing_streak(s) {
        best_streak_of(s.drop_last())
    } else {
        trailing_streak(s)
    }
}

/// The stats a given history derives to.
pub open spec fn matches_history(st: AccuracyStats, s: Seq<bool>) -> bool {
    &&& st.total_engagements == s.len()
    &&& st.successful_hits == count_hits(s)
    &&& st.current_streak == trailing_streak(s)
    &&& st.best_streak == best_streak_of(s)
}

impl AccuracyStats {
    /// Internal consistency: a streak never exceeds the hit count, hits never
    /// exceed the engagement count, and the current streak never exceeds the
    /// best.
    pub open spec fn wf(self) -> bool {
        &&& self.current_streak <= self.best_streak
        &&& self.best_streak <= self.successful_hits
        &&& self.successful_hits <= self.total_engagements
    }

    /// Fresh stats: everything zero; the empty history.
    pub fn new() -> (st: AccuracyStats)
        ensures
            st.wf(),
            matches_history(st, Seq::<bool>::empty()),
    {
        AccuracyStats { total_engagements: 0, successful_hits: 0, current_streak: 0, best_streak: 0 }
    }

    /// What one recorded engagement does to the stats.
    pub open spec fn spec_record(self, hit: bool) -> AccuracyStats {
        AccuracyStats {
            total_engagements: (self.total_engagements + 1) as u64,
            successful_hits: if hit {
                (self.successful_hits + 1) as u64
            } else {
                self.successful_hits
            },
            current_streak: if hit {
                (self.current_streak + 1) as u64
            } else {
                0
            },
            best_streak: if hit && self.current_streak + 1 > self.best_streak {
                (self.current_streak + 1) as u64
            } else {
                self.best_streak
            },
        }
    }

    /// Record one engagement: the total rises by one; the hit count rises by
    /// one exactly on a hit; a hit extends the current streak and a miss
    /// resets it to zero; the best streak is the maximum of itself and the
    /// new current streak, so it never decreases.
    pub fn record(self, hit: bool) -> (st: AccuracyStats)
        requires
            self.wf(),
            self.total_engagements < u64::MAX,
        ensures
            st == self.spec_record(hit),
            st.wf(),
            st.best_streak >= self.best_streak,
    {
        let total_engagements = self.total_engagements + 1;
        let successful_hits = if hit {
            self.successful_hits + 1
        } else {
            self.successful_hits
        };
        let current_streak = if hit {
            self.current_streak + 1
        } else {
            0
        };
        let best_streak = if current_streak > self.best_streak {
            current_streak
        } else {
            self.best_streak
        };
        AccuracyStats { total_engagements, successful_hits, current_streak, best_streak }
    }

    /// Accuracy in hundredths of a percent: round(10000 * hits / total),
    /// rounding half up, or 0 when no engagement was recorded. Divide by 100
    /// for the percentage with two decimals.
    pub open spec fn spec_accuracy_x100(self) -> nat {
        spec_accuracy_x100_of(self.total_engagements as nat, self.successful_hits as nat)
    }

    pub fn accuracy_x100(&self) -> (r: u64)
        requires
            self.wf(),
        ensures
            r == self.spec_accuracy_x100(),
            r <= 10000,
    {
        accuracy_x100_of(self.total_engagements, self.successful_hits)
    }
}

/// round(10000 * hits / total), half up; 0 when total is 0.
pub open spec fn spec_accuracy_x100_of(total: nat, hits: nat) -> nat {
    if total == 0 {
        0
    } else {
        (20000 * hits + total) / (2 * total)
    }
}

/// Accuracy in hundredths of a percent from raw counters.
pub fn accuracy_x100_of(total: u64, hits: u64) -> (r: u64)
    requires
        hits <= total,
    ensures
        r == spec_accuracy_x100_of(total as nat, hits as nat),
        r <= 10000,
{
    if total == 0 {
        0
    } else {
        let n: u128 = 20000u128 * (hits as u128) + (total as u128);
        let d: u128 = 2u128 * (total as u128);
        let q: u128 = n / d;
        proof {
            lemma_accuracy_bound(total as nat, hits as nat);
        }
        q as u64
    }
}

proof fn lemma_accuracy_bound(total: nat, hits: nat)
    requires
        hits <= total,
        total > 0,
    ensures
        (20000 * hits + total) / (2 * total) <= 10000,
{
    assert(20000 * hits <= 20000 * total) by (nonlinear_arith)
        requires
            hits <= total,
    ;
    assert((20000 * total + total) / (2 * total) <= 10000) by (nonlinear_arith)
        requires
            total > 0,
    ;
    assert((20000 * hits + total) / (2 * total) <= (20000 * total + total) / (2 * total))
        by (nonlinear_arith)
        requires
            20000 * hits <= 20000 * total,
            total > 0,
    ;
}

/// Every derived count is bounded by the history length.
pub proof fn lemma_counts_bounded(s: Seq<bool>)
    ensures
        count_hits(s) <= s.len(),
        trailing_streak(s) <= count_hits(s),
        best_streak_of(s) <= count_hits(s),
    decreases s.len(),
{
    if s.len() > 0 {
        lemma_counts_bounded(s.drop_last());
    }
}

/// One fold step of the history: if `st` derives from history `s`, then
/// recording `hit` yields the stats of `s.push(hit)`. With `record`'s own
/// contract this gives, for any sequence of recorded engagements, that the
/// final total equals the number of calls, the hit count equals the number
/// of calls with a hit, the current streak is the trailing run of hits, and
/// the best streak is the maximum streak over all prefixes.
pub proof fn lemma_record_extends_history(st: AccuracyStats, s: Seq<bool>, hit: bool)
    requires
        matches_history(st, s),
        st.total_engagements < u64::MAX,
    ensures
        matches_history(st.spec_record(hit), s.push(hit)),
{
    let t = s.push(hit);
    assert(t.drop_last() =~= s);
    assert(t.last() == hit);
    lemma_counts_bounded(s);
    lemma_counts_bounded(t);
}

/// The trailing streak is zero exactly when the most recent call was a miss
/// (or there was no call), and every entry inside the trailing run is a hit,
/// with a miss just before the run when the run does not cover the whole
/// history: the current streak is the longest run of consecutive hits ending
/// at the most recent call.
pub proof fn lemma_streak_characterization(s: Seq<bool>)
    ensures
        trailing_streak(s) <= s.len(),
        s.len() > 0 && !s.last() ==> trailing_streak(s) == 0,
        forall|i: int| s.len() - trailing_streak(s) <= i < s.len() ==> s[i],
        trailing_streak(s) < s.len() ==> !s[s.len() - trailing_streak(s) - 1],
    decreases s.len(),
{
    if s.len() > 0 && s.last() {
        lemma_streak_characterization(s.drop_last());
        assert forall|i: int| s.len() - trailing_streak(s) <= i < s.len() implies s[i] by {
            if i < s.len() - 1 {
                assert(s.drop_last()[i] == s[i]);
            }
        }
        if trailing_streak(s) < s.len() {
            let j = s.len() - trailing_streak(s) - 1;
            assert(!s.drop_last()[j]);
        }
    }
}

/// The best streak never decreases when the history grows.
pub proof fn lemma_best_streak_monotone(s: Seq<bool>, hit: bool)
    ensures
        best_streak_of(s.push(hit)) >= best_streak_of(s),
{
    assert(s.push(hit).drop_last() =~= s);
}

/// The best streak is the maximum of the current streak over all prefixes of
/// the history: no prefix has a longer trailing run, and some prefix attains
/// it.
pub proof fn lemma_best_is_max_over_prefixes(s: Seq<bool>)
    ensures
        forall|i: int|
            0 <= i <= s.len() ==> trailing_streak(#[trigger] s.take(i)) <= best_streak_of(s),
        s.len() > 0 ==> exists|i: int|
            0 <= i <= s.len() && trailing_streak(#[trigger] s.take(i)) == best_streak_of(s),
    decreases s.len(),
{
    if s.len() == 0 {
        assert forall|i: int| 0 <= i <= s.len() implies trailing_streak(#[trigger] s.take(i))
            <= best_streak_of(s) by {
            assert(s.take(i) =~= s);
        }
    } else {
        let p = s.drop_last();
        lemma_best_is_max_over_prefixes(p);
        assert forall|i: int| 0 <= i <= s.len() implies trailing_streak(#[trigger] s.take(i))
            <= best_streak_of(s) by {
            if i < s.len() {
                assert(s.take(i) =~= p.take(i));
            } else {
                assert(s.take(i) =~= s);
            }
        }
        if best_streak_of(s) == trailing_streak(s) {
            assert(s.take(s.len() as int) =~= s);
        } else {
            assert(best_streak_of(s) == best_streak_of(p));
            if p.len() > 0 {
                let i = choose|i: int|
                    0 <= i <= p.len() && trailing_streak(#[trigger] p.take(i)) == best_streak_of(p);
                assert(s.take(i) =~= p.take(i));
                assert(trailing_streak(s.take(i)) == best_streak_of(s));
            } else {
                assert(s.take(0) =~= p.take(0));
            }
        }
    }
}

} // verus!

//! Per-file results and run statistics.
//!
//! One `ConversionResult` is produced for every dispatched task, success
//! or failure, and is never mutated afterwards.  `RunStats` accumulates
//! results one at a time; accumulation is order-independent, so the final
//! state does not depend on the order in which concurrently completing
//! tasks are recorded.
//!
//! The savings percentage is kept in hundredths of a percent, exactly
//! rounded (ties away from zero), so that no floating point is involved.

use vstd::prelude::*;

verus! {

/// `n / d` rounded to the nearest integer, ties upward.
pub open spec fn round_half_up(n: int, d: int) -> int
    recommends
        n >= 0,
        d > 0,
{
    (2 * n + d) / (2 * d)
}

/// The savings of a conversion, in hundredths of a percent: the relative
/// size reduction `(1 - new / original) * 100`, rounded to two decimal
/// places (ties away from zero), and `0` when the original is empty.
/// A conversion that grows the file yields a negative value.
pub open spec fn savings_centi_spec(original: u64, new: u64) -> int {
    if original == 0 {
        0
    } else if new <= original {
        round_half_up((original - new) * 10000, original as int)
    } else {
        -round_half_up((new - original) * 10000, original as int)
    }
}

/// The savings of a conversion, in hundredths of a percent.
pub fn savings_centi(original: u64, new: u64) -> (r: i128)
    ensures
        r as int == savings_centi_spec(original, new),
        i128::MIN < r <= 10000,
{
    if original == 0 {
        return 0;
    }
    let d: u128 = original as u128;
    if new <= original {
        let n: u128 = (original - new) as u128 * 10000;
        let q: u128 = (2 * n + d) / (2 * d);
        proof {
            lemma_round_quotient_small(n, d);
        }
        q as i128
    } else {
        let n: u128 = (new - original) as u128 * 10000;
        let q: u128 = (2 * n + d) / (2 * d);
        proof {
            lemma_round_quotient_small(n, d);
        }
        -(q as i128)
    }
}

proof fn lemma_round_quotient_small(n: u128, d: u128)
    requires
        d >= 1,
        n <= 0xffff_ffff_ffff_ffffu128 * 10000,
    ensures
        0 <= round_half_up(n as int, d as int) <= 2 * n + d,
        n <= 10000 * d ==> round_half_up(n as int, d as int) <= 10000,
{
    assert(0 <= (2 * n + d) as int / (2 * d) as int <= 2 * n + d) by (nonlinear_arith)
        requires
            d >= 1,
            n >= 0,
    ;
    if n <= 10000 * d {
        // No conversion saves more than the whole file: the quotient stays
        // at or below one hundred percent.
        assert((2 * n + d) as int / (2 * d) as int <= 10000) by (nonlinear_arith)
            requires
                d >= 1,
                n >= 0,
                n <= 10000 * d,
        ;
    }
}

/// The outcome of one conversion task, produced exactly once per task.
pub struct ConversionResult {
    /// Path of the input file.
    pub input: String,
    /// Mapped path of the output file.
    pub output: String,
    /// Did every step of the pipeline succeed?
    pub success: bool,
    /// On success a fixed note; on failure a message naming the step that
    /// failed.
    pub message: String,
    /// Size of the input file in bytes; `0` when the failure came before
    /// the input could be measured.
    pub original_size: u64,
    /// Size of the encoded output in bytes; `0` on failure.
    pub new_size: u64,
    /// Savings in hundredths of a percent; `0` on failure.
    pub savings_centi: i128,
}

/// How many results report success.
pub open spec fn count_successes(s: Seq<ConversionResult>) -> nat
    decreases s.len(),
{
    if s.len() == 0 {
        0
    } else {
        count_successes(s.drop_last()) + if s.last().success {
            1nat
        } else {
            0nat
        }
    }
}

/// How many results report failure.
pub open spec fn count_failures(s: Seq<ConversionResult>) -> nat
    decreases s.len(),
{
    if s.len() == 0 {
        0
    } else {
        count_failures(s.drop_last()) + if s.last().success {
            0nat
        } else {
            1nat
        }
    }
}

/// Total input bytes over the successful results.
pub open spec fn sum_original(s: Seq<ConversionResult>) -> nat
    decreases s.len(),
{
    if s.len() == 0 {
        0
    } else {
        sum_original(s.drop_last()) + if s.last().success {
            s.last().original_size as nat
        } else {
            0nat
        }
    }
}

/// Total output bytes over the successful results.
pub open spec fn sum_new(s: Seq<ConversionResult>) -> nat
    decreases s.len(),
{
    if s.len() == 0 {
        0
    } else {
        sum_new(s.drop_last()) + if s.last().success {
            s.last().new_size as nat
        } else {
            0nat
        }
    }
}

/// Each result is a success or a failure, never neither and never both:
/// the success and failure counts partition the number of results.
pub proof fn lemma_counts_partition(s: Seq<ConversionResult>)
    ensures
        count_successes(s) + count_failures(s) == s.len(),
    decreases s.len(),
{
    if s.len() > 0 {
        lemma_counts_partition(s.drop_last());
    }
}

/// Removing one result lowers each count and sum by exactly that
/// result's contribution.
proof fn lemma_model_remove(s: Seq<ConversionResult>, i: int)
    requires
        0 <= i < s.len(),
    ensures
        count_successes(s.remove(i)) + (if s[i].success {
            1nat
        } else {
            0nat
        }) == count_successes(s),
        count_failures(s.remove(i)) + (if s[i].success {
            0nat
        } else {
            1nat
        }) == count_failures(s),
        sum_original(s.remove(i)) + (if s[i].success {
            s[i].original_size as nat
        } else {
            0nat
        }) == sum_original(s),
        sum_new(s.remove(i)) + (if s[i].success {
            s[i].new_size as nat
        } else {
            0nat
        }) == sum_new(s),
    decreases s.len(),
{
    if i == s.len() - 1 {
        assert(s.remove(i) =~= s.drop_last());
    } else {
        assert(s.remove(i).drop_last() =~= s.drop_last().remove(i));
        assert(s.remove(i).last() == s.last());
        lemma_model_remove(s.drop_last(), i);
    }
}

/// Aggregation is order-independent: two result sequences that hold the
/// same results — the same multiset, in any arrival interleaving —
/// yield the same counts and byte totals.
pub proof fn lemma_aggregation_order_independent(
    s1: Seq<ConversionResult>,
    s2: Seq<ConversionResult>,
)
    requires
        s1.to_multiset() == s2.to_multiset(),
    ensures
        s1.len() == s2.len(),
        count_successes(s1) == count_successes(s2),
        count_failures(s1) == count_failures(s2),
        sum_original(s1) == sum_original(s2),
        sum_new(s1) == sum_new(s2),
    decreases s2.len(),
{
    broadcast use vstd::seq_lib::group_to_multiset_ensures;

    s1.to_multiset_ensures();
    s2.to_multiset_ensures();
    if s2.len() == 0 {
        assert(s1.len() == s1.to_multiset().len());
    } else {
        let x = s2.last();
        assert(s2.contains(x));
        assert(s1.to_multiset().count(x) > 0);
        assert(s1.contains(x));
        let i = choose|i: int| 0 <= i < s1.len() && s1[i] == x;
        assert(s2.drop_last().push(x) =~= s2);
        assert(s2.drop_last().to_multiset().insert(x) =~= s2.to_multiset());
        assert(s1.remove(i).to_multiset() =~= s1.to_multiset().remove(x));
        assert(s1.remove(i).to_multiset() =~= s2.drop_last().to_multiset());
        lemma_aggregation_order_independent(s1.remove(i), s2.drop_last());
        lemma_model_remove(s1, i);
    }
}

/// A prefix of the results never counts or sums more than the whole.
pub proof fn lemma_prefix_bounds(s: Seq<ConversionResult>, i: int)
    requires
        0 <= i <= s.len(),
    ensures
        count_successes(s.take(i)) <= count_successes(s),
        count_failures(s.take(i)) <= count_failures(s),
        sum_original(s.take(i)) <= sum_original(s),
        sum_new(s.take(i)) <= sum_new(s),
    decreases s.len(),
{
    if i == s.len() {
        assert(s.take(i) =~= s);
    } else {
        assert(s.take(i) =~= s.drop_last().take(i));
        lemma_prefix_bounds(s.drop_last(), i);
    }
}

/// Mutable shared state of one run: counts and byte totals, read once at
/// the end for the summary.
pub struct RunStats {
    /// How many tasks have completed, success or failure.
    pub completed_count: u64,
    /// How many tasks succeeded.
    pub success_count: u64,
    /// How many tasks failed.
    pub failure_count: u64,
    /// Total input bytes over the successful tasks.
    pub total_original_bytes: u64,
    /// Total encoded bytes over the successful tasks.
    pub total_new_bytes: u64,
}

impl RunStats {
    /// Every completed task was counted as exactly one success or failure.
    pub open spec fn wf(self) -> bool {
        self.success_count + self.failure_count == self.completed_count
    }

    /// Fresh statistics: nothing completed yet.
    pub fn new() -> (r: RunStats)
        ensures
            r.completed_count == 0,
            r.success_count == 0,
            r.failure_count == 0,
            r.total_original_bytes == 0,
            r.total_new_bytes == 0,
            r.wf(),
    {
        RunStats {
            completed_count: 0,
            success_count: 0,
            failure_count: 0,
            total_original_bytes: 0,
            total_new_bytes: 0,
        }
    }

    /// Record one completed task: the completed count rises by one, exactly
    /// one of the success and failure counts rises by one, and on success
    /// the byte totals grow by the task's sizes.
    pub fn record(&mut self, r: &ConversionResult)
        requires
            old(self).wf(),
            old(self).completed_count < u64::MAX,
            r.success ==> old(self).total_original_bytes + r.original_size <= u64::MAX,
            r.success ==> old(self).total_new_bytes + r.new_size <= u64::MAX,
        ensures
            final(self).wf(),
            final(self).completed_count == old(self).completed_count + 1,
            r.success ==> final(self).success_count == old(self).success_count + 1
                && final(self).failure_count == old(self).failure_count
                && final(self).total_original_bytes == old(self).total_original_bytes
                + r.original_size && final(self).total_new_bytes == old(self).total_new_bytes
                + r.new_size,
            !r.success ==> final(self).failure_count == old(self).failure_count + 1
                && final(self).success_count == old(self).success_count
                && final(self).total_original_bytes == old(self).total_original_bytes
                && final(self).total_new_bytes == old(self).total_new_bytes,
    {
        self.completed_count = self.completed_count + 1;
        if r.success {
            self.success_count = self.success_count + 1;
            self.total_original_bytes = self.total_original_bytes + r.original_size;
            self.total_new_bytes = self.total_new_bytes + r.new_size;
        } else {
            self.failure_count = self.failure_count + 1;
        }
    }

    /// Accumulate every result of a run.  The final state is the
    /// point-wise sum of the individual results: the completed count is
    /// the number of results, the success and failure counts partition it,
    /// and the byte totals are the sums over the successful results.
    pub fn aggregate(results: &Vec<ConversionResult>) -> (r: RunStats)
        requires
            results@.len() <= u64::MAX,
            sum_original(results@) <= u64::MAX,
            sum_new(results@) <= u64::MAX,
        ensures
            r.wf(),
            r.completed_count == results@.len(),
            r.success_count == count_successes(results@),
            r.failure_count == count_failures(results@),
            r.total_original_bytes == sum_original(results@),
            r.total_new_bytes == sum_new(results@),
    {
        let mut stats = RunStats::new();
        let mut i: usize = 0;
        proof {
            assert(results@.take(0) =~= Seq::<ConversionResult>::empty());
        }
        while i < results.len()
            invariant
                i <= results@.len(),
                results@.len() <= u64::MAX,
                sum_original(results@) <= u64::MAX,
                sum_new(results@) <= u64::MAX,
                stats.wf(),
                stats.completed_count == i,
                stats.success_count == count_successes(results@.take(i as int)),
                stats.failure_count == count_failures(results@.take(i as int)),
                stats.total_original_bytes == sum_original(results@.take(i as int)),
                stats.total_new_bytes == sum_new(results@.take(i as int)),
            decreases results@.len() - i,
        {
            proof {
                assert(results@.take(i + 1).drop_last() =~= results@.take(i as int));
                assert(results@.take(i + 1).last() == results@[i as int]);
                lemma_prefix_bounds(results@, i + 1);
            }
            stats.record(&results[i]);
            i = i + 1;
        }
        proof {
            assert(results@.take(results@.len() as int) =~= results@);
        }
        stats
    }
}

} // verus!

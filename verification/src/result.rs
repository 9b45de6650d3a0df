//! Win/loss counters of the door game and their aggregation.

use vstd::prelude::*;

verus! {

/// The counters of a batch of door-game rounds.
#[derive(Clone, Copy, Debug, PartialEq, Eq, Structural)]
pub struct Result {
    pub failed: u64,
    pub successful: u64,
}

/// Sum of the `failed` counters of a sequence of results.
pub open spec fn total_failed(results: Seq<Result>) -> nat
    decreases results.len(),
{
    if results.len() == 0 {
        0
    } else {
        total_failed(results.drop_last()) + results.last().failed as nat
    }
}

/// Sum of the `successful` counters of a sequence of results.
pub open spec fn total_successful(results: Seq<Result>) -> nat
    decreases results.len(),
{
    if results.len() == 0 {
        0
    } else {
        total_successful(results.drop_last()) + results.last().successful as nat
    }
}

impl Default for Result {
    /// No round counted yet.
    fn default() -> (r: Result)
        ensures
            r.failed == 0,
            r.successful == 0,
    {
        Result { failed: 0, successful: 0 }
    }
}

impl Result {
    /// Adds up the counters of all partial results.
    pub fn combine(results: Vec<Result>) -> (total: Result)
        requires
            total_failed(results@) <= u64::MAX,
            total_successful(results@) <= u64::MAX,
        ensures
            total.failed == total_failed(results@),
            total.successful == total_successful(results@),
    {
        let mut complete_result = Result::default();
        let mut i: usize = 0;
        while i < results.len()
            invariant
                i <= results.len(),
                complete_result.failed == total_failed(results@.take(i as int)),
                complete_result.successful == total_successful(results@.take(i as int)),
                total_failed(results@) <= u64::MAX,
                total_successful(results@) <= u64::MAX,
            decreases results.len() - i,
        {
            proof {
                assert(results@.take(i as int + 1).drop_last() =~= results@.take(i as int));
                lemma_totals_grow(results@, i as int + 1);
            }
            complete_result.failed += results[i].failed;
            complete_result.successful += results[i].successful;
            i += 1;
        }
        proof {
            assert(results@.take(results.len() as int) =~= results@);
        }
        complete_result
    }
}

/// A prefix never totals more than the whole sequence.
proof fn lemma_totals_grow(results: Seq<Result>, n: int)
    requires
        0 <= n <= results.len(),
    ensures
        total_failed(results.take(n)) <= total_failed(results),
        total_successful(results.take(n)) <= total_successful(results),
    decreases results.len() - n,
{
    if n == results.len() {
        assert(results.take(n) =~= results);
    } else {
        lemma_totals_grow(results, n + 1);
        assert(results.take(n + 1).drop_last() =~= results.take(n));
    }
}

/// The totals of two batches taken together are the sums of their totals,
/// whichever batch comes first: partial results may be combined in any
/// order.
pub proof fn lemma_totals_of_parts(a: Seq<Result>, b: Seq<Result>)
    ensures
        total_failed(a + b) == total_failed(a) + total_failed(b),
        total_successful(a + b) == total_successful(a) + total_successful(b),
        total_failed(a + b) == total_failed(b + a),
        total_successful(a + b) == total_successful(b + a),
{
    lemma_totals_add_up(a, b);
    lemma_totals_add_up(b, a);
}

proof fn lemma_totals_add_up(a: Seq<Result>, b: Seq<Result>)
    ensures
        total_failed(a + b) == total_failed(a) + total_failed(b),
        total_successful(a + b) == total_successful(a) + total_successful(b),
    decreases b.len(),
{
    if b.len() == 0 {
        assert(a + b =~= a);
    } else {
        lemma_totals_add_up(a, b.drop_last());
        assert((a + b).drop_last() =~= a + b.drop_last());
    }
}

} // verus!

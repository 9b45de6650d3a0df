//! Work shared out among workers: how a number of trials is split, and how
//! the workers' counts are added up again.

use vstd::prelude::*;
use vstd::arithmetic::div_mod::lemma_fundamental_div_mod;

verus! {

/// Sum of the shares, or of the counts that came back.
pub open spec fn total_cycles(shares: Seq<u64>) -> nat
    decreases shares.len(),
{
    if shares.len() == 0 {
        0
    } else {
        total_cycles(shares.drop_last()) + shares.last() as nat
    }
}

/// Splits `cycles` among `cpu_count` workers as evenly as whole numbers
/// allow: every worker gets the quotient, and the last one the remainder on
/// top.
pub fn split_cycles(cycles: u64, cpu_count: usize) -> (shares: Vec<u64>)
    requires
        cpu_count >= 1,
    ensures
        shares.len() == cpu_count,
        forall|i: int| 0 <= i < cpu_count - 1 ==> shares[i] == cycles / (cpu_count as u64),
        shares[cpu_count - 1] == cycles / (cpu_count as u64) + cycles % (cpu_count as u64),
        total_cycles(shares@) == cycles,
{
    let workers = cpu_count as u64;
    let share = cycles / workers;
    let mut sub_cycles: Vec<u64> = Vec::new();
    let mut i: usize = 0;
    while i < cpu_count - 1
        invariant
            cpu_count >= 1,
            i <= cpu_count - 1,
            sub_cycles.len() == i,
            forall|k: int| 0 <= k < i ==> sub_cycles[k] == share,
            total_cycles(sub_cycles@) == i * share,
        decreases cpu_count - 1 - i,
    {
        proof {
            assert(sub_cycles@.push(share).drop_last() =~= sub_cycles@);
            assert(i * share + share == (i + 1) * share) by (nonlinear_arith);
        }
        sub_cycles.push(share);
        i += 1;
    }
    proof {
        lemma_fundamental_div_mod(cycles as int, workers as int);
        assert(workers * share == (cpu_count - 1) * share + share) by (nonlinear_arith)
            requires
                workers == cpu_count,
        ;
        assert(sub_cycles@.push((share + cycles % workers) as u64).drop_last() =~= sub_cycles@);
    }
    sub_cycles.push(share + cycles % workers);
    sub_cycles
}

/// Adds up the counts of the workers.
pub fn add_counts(counts: &Vec<u64>) -> (total: u64)
    requires
        total_cycles(counts@) <= u64::MAX,
    ensures
        total == total_cycles(counts@),
{
    let mut total: u64 = 0;
    let mut i: usize = 0;
    while i < counts.len()
        invariant
            i <= counts.len(),
            total == total_cycles(counts@.take(i as int)),
            total_cycles(counts@) <= u64::MAX,
        decreases counts.len() - i,
    {
        proof {
            assert(counts@.take(i as int + 1).drop_last() =~= counts@.take(i as int));
            lemma_total_of_prefix(counts@, i as int + 1);
        }
        total += counts[i];
        i += 1;
    }
    proof {
        assert(counts@.take(counts.len() as int) =~= counts@);
    }
    total
}

/// A prefix never totals more than the whole sequence.
proof fn lemma_total_of_prefix(counts: Seq<u64>, n: int)
    requires
        0 <= n <= counts.len(),
    ensures
        total_cycles(counts.take(n)) <= total_cycles(counts),
    decreases counts.len() - n,
{
    if n == counts.len() {
        assert(counts.take(n) =~= counts);
    } else {
        lemma_total_of_prefix(counts, n + 1);
        assert(counts.take(n + 1).drop_last() =~= counts.take(n));
    }
}

/// The total of two batches of counts is the sum of their totals, whichever
/// batch comes first: the order in which workers report does not matter.
pub proof fn lemma_total_of_parts(a: Seq<u64>, b: Seq<u64>)
    ensures
        total_cycles(a + b) == total_cycles(a) + total_cycles(b),
        total_cycles(a + b) == total_cycles(b + a),
{
    lemma_total_adds_up(a, b);
    lemma_total_adds_up(b, a);
}

proof fn lemma_total_adds_up(a: Seq<u64>, b: Seq<u64>)
    ensures
        total_cycles(a + b) == total_cycles(a) + total_cycles(b),
    decreases b.len(),
{
    if b.len() == 0 {
        assert(a + b =~= a);
    } else {
        lemma_total_adds_up(a, b.drop_last());
        assert((a + b).drop_last() =~= a + b.drop_last());
    }
}

} // verus!

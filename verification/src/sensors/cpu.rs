//! Processor frequency.

use vstd::prelude::*;

verus! {

/// The sum of `s`.
pub open spec fn sum(s: Seq<u64>) -> nat
    decreases s.len(),
{
    if s.len() == 0 {
        0
    } else {
        sum(s.drop_last()) + s.last() as nat
    }
}

proof fn lemma_sum_prefix_bounded(s: Seq<u64>, i: int)
    requires
        0 <= i <= s.len(),
    ensures
        sum(s.take(i)) <= sum(s),
    decreases s.len() - i,
{
    if i < s.len() {
        assert(s.drop_last().take(i) =~= s.take(i));
        lemma_sum_prefix_bounded(s.drop_last(), i);
        assert(s.take(s.len() as int) =~= s);
    } else {
        assert(s.take(i) =~= s);
    }
}

/// The average of the per-thread frequencies in MHz, rounded down; 0 when
/// there are none.
pub fn average_frequency(per_core: &[u64]) -> (f: u64)
    requires
        sum(per_core@) <= u64::MAX,
    ensures
        per_core@.len() == 0 ==> f == 0,
        per_core@.len() > 0 ==> f == sum(per_core@) / per_core@.len(),
{
    let mut total: u64 = 0;
    for i in 0..per_core.len()
        invariant
            total == sum(per_core@.take(i as int)),
            sum(per_core@) <= u64::MAX,
    {
        proof {
            assert(per_core@.take(i + 1).drop_last() =~= per_core@.take(i as int));
            lemma_sum_prefix_bounded(per_core@, i + 1);
        }
        total = total + per_core[i];
    }
    proof {
        assert(per_core@.take(per_core@.len() as int) =~= per_core@);
    }
    let n = per_core.len();
    if n > 0 {
        total / (n as u64)
    } else {
        0
    }
}

/// Whether the frequencies can be summed in a `u64`.
pub fn frequencies_fit(per_core: &[u64]) -> (b: bool)
    ensures
        b == (sum(per_core@) <= u64::MAX),
{
    let mut total: u64 = 0;
    for i in 0..per_core.len()
        invariant
            total == sum(per_core@.take(i as int)),
    {
        proof {
            assert(per_core@.take(i + 1).drop_last() =~= per_core@.take(i as int));
            lemma_sum_prefix_bounded(per_core@, i + 1);
        }
        if total > u64::MAX - per_core[i] {
            return false;
        }
        total = total + per_core[i];
    }
    proof {
        assert(per_core@.take(per_core@.len() as int) =~= per_core@);
    }
    true
}

} // verus!

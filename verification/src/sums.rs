use vstd::prelude::*;

verus! {

/// The exact arithmetic sum of a sequence of raw axis readings.
pub open spec fn seq_sum(s: Seq<i32>) -> int
    decreases s.len(),
{
    if s.len() == 0 {
        0
    } else {
        seq_sum(s.drop_last()) + s.last()
    }
}

/// Extending a prefix by one element adds exactly that element to its sum.
pub proof fn lemma_seq_sum_take_step(s: Seq<i32>, k: int)
    requires
        0 <= k < s.len(),
    ensures
        seq_sum(s.take(k + 1)) == seq_sum(s.take(k)) + s[k],
{
    assert(s.take(k + 1).drop_last() =~= s.take(k));
}

/// Each element lies in i32's range, so the sum is bounded by the length
/// times the extreme i32 values.
pub proof fn lemma_seq_sum_bounds(s: Seq<i32>)
    ensures
        -(s.len() * 0x8000_0000) <= seq_sum(s) <= s.len() * 0x7fff_ffff,
    decreases s.len(),
{
    if s.len() > 0 {
        lemma_seq_sum_bounds(s.drop_last());
    }
}

/// A sequence of zeros sums to zero.
pub proof fn lemma_seq_sum_zero(s: Seq<i32>)
    requires
        forall|j: int| 0 <= j < s.len() ==> s[j] == 0,
    ensures
        seq_sum(s) == 0,
    decreases s.len(),
{
    if s.len() > 0 {
        lemma_seq_sum_zero(s.drop_last());
    }
}

} // verus!

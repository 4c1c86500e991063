//! The processor's average frequency over its cores.

use vstd::prelude::*;

verus! {

/// The sum of the frequencies.
pub open spec fn total(freqs: Seq<u64>) -> int
    decreases freqs.len(),
{
    if freqs.len() == 0 {
        0
    } else {
        total(freqs.drop_last()) + freqs.last()
    }
}

proof fn lemma_total_prefix(freqs: Seq<u64>, i: int)
    requires
        0 <= i <= freqs.len(),
    ensures
        0 <= total(freqs.take(i)) <= total(freqs),
    decreases freqs.len(),
{
    if i == freqs.len() {
        assert(freqs.take(i) =~= freqs);
        lemma_total_nonneg(freqs);
    } else {
        assert(freqs.take(i) =~= freqs.drop_last().take(i));
        lemma_total_prefix(freqs.drop_last(), i);
    }
}

proof fn lemma_total_nonneg(freqs: Seq<u64>)
    ensures
        total(freqs) >= 0,
    decreases freqs.len(),
{
    if freqs.len() > 0 {
        lemma_total_nonneg(freqs.drop_last());
    }
}

/// The average frequency in MHz over the cores, rounded down; 0 when
/// there are none. The sum of the frequencies must fit a `u64`.
pub fn average_frequency(freqs: &Vec<u64>) -> (r: u64)
    requires
        total(freqs@) <= u64::MAX,
    ensures
        r == (if freqs@.len() == 0 { 0 } else { total(freqs@) / freqs@.len() as int }),
{
    if freqs.len() == 0 {
        return 0;
    }
    let mut sum: u64 = 0;
    let mut i: usize = 0;
    while i < freqs.len()
        invariant
            i <= freqs@.len(),
            total(freqs@) <= u64::MAX,
            sum == total(freqs@.take(i as int)),
        decreases freqs@.len() - i,
    {
        proof {
            assert(freqs@.take(i + 1).drop_last() =~= freqs@.take(i as int));
            lemma_total_prefix(freqs@, i + 1);
        }
        sum = sum + freqs[i];
        i += 1;
    }
    assert(freqs@.take(i as int) =~= freqs@);
    sum / (freqs.len() as u64)
}

} // verus!

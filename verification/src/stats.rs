//! Order statistics of one metric's samples: the samples in the total
//! order of binary64 values, their extremes, and the middle element(s)
//! a median is taken from. The library carries values by their bit
//! patterns; averaging the two middle elements of an even count is left to
//! the caller.

use vstd::prelude::*;
use crate::float64::{Float64, SIGN_BIT};

verus! {

broadcast use vstd::seq_lib::group_to_multiset_ensures;

/// The position of a value in the IEEE-754 total order (the order of
/// `f64::total_cmp`): a value with a clear sign bit by its pattern, one
/// with a set sign bit below every such value, the larger its magnitude
/// pattern the lower.
pub open spec fn total_key(bits: u64) -> int {
    if bits < SIGN_BIT {
        bits as int
    } else {
        -1 - (bits - SIGN_BIT)
    }
}

/// The samples appear in that order.
pub open spec fn total_sorted(s: Seq<Float64>) -> bool {
    forall|i: int, j: int| 0 <= i <= j < s.len() ==> total_key(s[i].bits) <= total_key(s[j].bits)
}

/// Whether `a` comes no later than `b` in the total order.
pub fn total_le(a: Float64, b: Float64) -> (r: bool)
    ensures
        r == (total_key(a.bits) <= total_key(b.bits)),
{
    if a.bits < SIGN_BIT {
        if b.bits < SIGN_BIT {
            a.bits <= b.bits
        } else {
            false
        }
    } else {
        if b.bits < SIGN_BIT {
            true
        } else {
            a.bits >= b.bits
        }
    }
}

/// The first position of a sorted sequence holding a value that comes
/// strictly after `x`, or its length.
fn insertion_point(out: &Vec<Float64>, x: Float64) -> (j: usize)
    requires
        total_sorted(out@),
    ensures
        j <= out@.len(),
        forall|k: int| 0 <= k < j ==> total_key(#[trigger] out@[k].bits) <= total_key(x.bits),
        forall|k: int| j <= k < out@.len() ==> total_key(x.bits) < total_key(#[trigger] out@[k].bits),
{
    let mut j: usize = 0;
    while j < out.len()
        invariant
            j <= out@.len(),
            total_sorted(out@),
            forall|k: int| 0 <= k < j ==> total_key(#[trigger] out@[k].bits) <= total_key(x.bits),
        decreases out@.len() - j,
    {
        if !total_le(out[j], x) {
            assert forall|k: int| j <= k < out@.len() implies total_key(x.bits) < total_key(
                #[trigger] out@[k].bits,
            ) by {
                assert(total_key(out@[j as int].bits) <= total_key(out@[k].bits));
            }
            return j;
        }
        j = j + 1;
    }
    j
}

/// The samples in the total order: the same values, each as often.
pub fn sorted_samples(samples: &Vec<Float64>) -> (r: Vec<Float64>)
    ensures
        r@.to_multiset() == samples@.to_multiset(),
        r@.len() == samples@.len(),
        total_sorted(r@),
{
    let mut out: Vec<Float64> = Vec::new();
    let mut i: usize = 0;
    while i < samples.len()
        invariant
            i <= samples@.len(),
            out@.to_multiset() == samples@.take(i as int).to_multiset(),
            out@.len() == i,
            total_sorted(out@),
        decreases samples@.len() - i,
    {
        let x = samples[i];
        let j = insertion_point(&out, x);
        let ghost before = out@;
        out.insert(j, x);
        proof {
            assert(out@ =~= before.insert(j as int, x));
            assert(samples@.take(i as int + 1) =~= samples@.take(i as int).push(x));
            assert forall|a: int, b: int| 0 <= a <= b < out@.len() implies total_key(out@[a].bits)
                <= total_key(out@[b].bits) by {
                if b < j {
                } else if b == j {
                    if a < j {
                        assert(out@[a] == before[a]);
                    }
                } else {
                    assert(out@[b] == before[b - 1]);
                    if a < j {
                        assert(out@[a] == before[a]);
                    } else if a > j {
                        assert(out@[a] == before[a - 1]);
                    }
                }
            }
        }
        i = i + 1;
    }
    proof {
        assert(samples@.take(samples@.len() as int) =~= samples@);
    }
    out
}

/// Different bit patterns have different positions in the total order.
pub proof fn lemma_total_key_injective(a: Float64, b: Float64)
    requires
        total_key(a.bits) == total_key(b.bits),
    ensures
        a == b,
{
}

/// The samples have one ordering only: two orderings of the same values,
/// each as often, are the same sequence. So the extremes and middle
/// elements of a metric depend on its samples alone.
pub proof fn lemma_total_sort_unique(s: Seq<Float64>, t: Seq<Float64>)
    requires
        s.to_multiset() == t.to_multiset(),
        total_sorted(s),
        total_sorted(t),
    ensures
        s == t,
    decreases s.len(),
{
    broadcast use vstd::multiset::group_multiset_axioms;

    vstd::seq_lib::to_multiset_len(s);
    vstd::seq_lib::to_multiset_len(t);
    if s.len() == 0 {
        assert(t.len() == 0);
        assert(s =~= t);
    } else {
        assert(t.len() == s.len());
        assert(s.to_multiset().count(s[0]) > 0);
        assert(t.contains(s[0]));
        assert(t.to_multiset().count(t[0]) > 0);
        assert(s.contains(t[0]));
        let j = choose|j: int| 0 <= j < s.len() && s[j] == t[0];
        let k = choose|k: int| 0 <= k < t.len() && t[k] == s[0];
        assert(total_key(s[0].bits) <= total_key(s[j].bits));
        assert(total_key(t[0].bits) <= total_key(t[k].bits));
        lemma_total_key_injective(s[0], t[0]);
        assert(s.remove(0) =~= s.drop_first());
        assert(t.remove(0) =~= t.drop_first());
        assert(s.drop_first().to_multiset() == s.to_multiset().remove(s[0]));
        assert(t.drop_first().to_multiset() == t.to_multiset().remove(t[0]));
        lemma_total_sort_unique(s.drop_first(), t.drop_first());
        assert(s =~= seq![s[0]] + s.drop_first());
        assert(t =~= seq![t[0]] + t.drop_first());
    }
}

/// The count, extremes and middle elements of a non-empty metric.
#[derive(Debug, Clone, Copy, PartialEq, Eq, Structural)]
pub struct MetricParts {
    pub n: u64,
    pub min: Float64,
    pub max: Float64,
    /// The element at position `(n - 1) / 2` of the ordered samples.
    pub lower_middle: Float64,
    /// The element at position `n / 2` (the median itself when `n` is odd).
    pub upper_middle: Float64,
}

/// The parts read from ordered samples `s`.
pub open spec fn parts_of(s: Seq<Float64>) -> MetricParts {
    MetricParts {
        n: s.len() as u64,
        min: s[0],
        max: s[s.len() - 1],
        lower_middle: s[(s.len() - 1) / 2],
        upper_middle: s[(s.len() / 2) as int],
    }
}

/// The parts of a metric's samples: none for no samples, else those of
/// the samples in the total order.
pub fn metric_parts(samples: &Vec<Float64>) -> (r: Option<MetricParts>)
    ensures
        match r {
            None => samples@.len() == 0,
            Some(p) => samples@.len() > 0 && exists|s: Seq<Float64>|
                #![trigger s.to_multiset()]
                s.to_multiset() == samples@.to_multiset() && s.len() == samples@.len() && total_sorted(s)
                    && p == parts_of(s),
        },
{
    if samples.len() == 0 {
        return None;
    }
    let sorted = sorted_samples(samples);
    let n = sorted.len();
    let p = MetricParts {
        n: n as u64,
        min: sorted[0],
        max: sorted[n - 1],
        lower_middle: sorted[(n - 1) / 2],
        upper_middle: sorted[n / 2],
    };
    proof {
        assert(p == parts_of(sorted@));
        assert(sorted@.to_multiset() == samples@.to_multiset());
    }
    Some(p)
}

} // verus!

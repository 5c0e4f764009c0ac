//! The cross-cycle counter filter.
//!
//! Each new cycle's samples are compared against the previously accepted
//! ones. A counter that decreased, or grew by more than ten percent in one
//! cycle, is implausible: its previous value is kept instead. Gauges are
//! never filtered, and a sample without a matching previous entry is kept
//! unchanged. The filter is a deterministic heuristic with fixed thresholds,
//! total over well-formed inputs.

use crate::model::{has_same_identity, same_identity, sample_views, MetricType, Sample, SampleData};
use crate::value::Value;
use vstd::prelude::*;

verus! {

/// Whether the exact ratio `current / previous` exceeds 11/10, read as real
/// division: a positive value over zero exceeds every threshold, zero or a
/// negative value over zero does not, and dividing by a negative value
/// reverses the order.
pub open spec fn ratio_above_threshold(current: int, previous: int) -> bool {
    if previous > 0 {
        10 * current > 11 * previous
    } else if previous < 0 {
        10 * current < 11 * previous
    } else {
        current > 0
    }
}

/// A counter reading is implausible when it decreased, or grew by more than
/// ten percent in one cycle.
pub open spec fn counter_implausible(current: int, previous: int) -> bool {
    current < previous || ratio_above_threshold(current, previous)
}

/// Index of the first previous sample with the same identity key, or -1.
pub open spec fn find_matching(prev: Seq<SampleData>, c: SampleData) -> int
    decreases prev.len(),
{
    if prev.len() == 0 {
        -1
    } else if same_identity(prev[0], c) {
        0
    } else {
        let t = find_matching(prev.drop_first(), c);
        if t < 0 {
            -1
        } else {
            1 + t
        }
    }
}

/// What the filter returns for one current sample: the first matching
/// previous sample when the current one is an implausible counter reading,
/// otherwise the current sample itself.
pub open spec fn sanitize_one(c: SampleData, prev: Seq<SampleData>) -> SampleData {
    let j = find_matching(prev, c);
    if j >= 0 && c.metric_type == MetricType::Counter && counter_implausible(
        c.value,
        prev[j].value,
    ) {
        prev[j]
    } else {
        c
    }
}

/// The filter over a whole cycle, element by element in order.
pub open spec fn sanitize_seq(cur: Seq<SampleData>, prev: Seq<SampleData>) -> Seq<SampleData> {
    Seq::new(cur.len(), |i: int| sanitize_one(cur[i], prev))
}

proof fn lemma_find_matching_props(prev: Seq<SampleData>, c: SampleData)
    ensures
        -1 <= find_matching(prev, c) < prev.len(),
        find_matching(prev, c) >= 0 ==> same_identity(prev[find_matching(prev, c)], c),
        forall|k: int|
            0 <= k < prev.len() && (find_matching(prev, c) == -1 || k < find_matching(prev, c))
                ==> !same_identity(#[trigger] prev[k], c),
    decreases prev.len(),
{
    if prev.len() > 0 && !same_identity(prev[0], c) {
        let rest = prev.drop_first();
        lemma_find_matching_props(rest, c);
        assert forall|k: int|
            0 <= k < prev.len() && (find_matching(prev, c) == -1 || k < find_matching(
                prev,
                c,
            )) implies !same_identity(#[trigger] prev[k], c) by {
            if k > 0 {
                assert(prev[k] == rest[k - 1]);
            }
        }
    }
}

proof fn lemma_find_matching_at(prev: Seq<SampleData>, c: SampleData, k: int)
    requires
        0 <= k <= prev.len(),
        forall|j: int| 0 <= j < k ==> !same_identity(#[trigger] prev[j], c),
        k < prev.len() ==> same_identity(prev[k], c),
    ensures
        find_matching(prev, c) == if k < prev.len() {
            k
        } else {
            -1
        },
    decreases k,
{
    if k > 0 {
        assert(forall|j: int|
            0 <= j < prev.drop_first().len() ==> prev.drop_first()[j] == prev[j + 1]);
        lemma_find_matching_at(prev.drop_first(), c, k - 1);
    } else if prev.len() > 0 && !same_identity(prev[0], c) {
        // k == 0 and k == prev.len() cannot both fail here, so k == len == 0.
    }
}

/// Finds the first sample of `prev` with the same identity key as `c`.
fn find_matching_sample(prev: &Vec<Sample>, c: &Sample) -> (r: Option<usize>)
    ensures
        match r {
            Some(j) => j < prev@.len() && find_matching(sample_views(prev@), c@) == j as int,
            None => find_matching(sample_views(prev@), c@) == -1,
        },
{
    let n = prev.len();
    let mut i: usize = 0;
    while i < n
        invariant
            0 <= i <= n,
            n == prev@.len(),
            forall|j: int|
                0 <= j < i ==> !same_identity(#[trigger] sample_views(prev@)[j], c@),
        decreases n - i,
    {
        if has_same_identity(&prev[i], c) {
            proof {
                lemma_find_matching_at(sample_views(prev@), c@, i as int);
            }
            return Some(i);
        }
        i += 1;
    }
    proof {
        lemma_find_matching_at(sample_views(prev@), c@, n as int);
    }
    None
}

/// Decides whether a counter reading is implausible next to the previous
/// accepted one.
fn counter_rejected(current: Value, previous: Value) -> (r: bool)
    ensures
        r == counter_implausible(current@, previous@),
{
    let c = current.micros();
    let p = previous.micros();
    if c < p {
        true
    } else if p > 0 {
        10 * (c as i128) > 11 * (p as i128)
    } else if p < 0 {
        10 * (c as i128) < 11 * (p as i128)
    } else {
        c > 0
    }
}

/// Filters one cycle's samples against the previously accepted ones.
///
/// The result has exactly one sample per current sample, in the same order.
/// A counter sample whose first identity match among `last_samples` shows it
/// decreased or grew by more than ten percent is replaced by that previous
/// sample; every other sample is kept as it is.
pub fn sanitize_samples(current_samples: Vec<Sample>, last_samples: &Vec<Sample>) -> (r: Vec<
    Sample,
>)
    ensures
        sample_views(r@) == sanitize_seq(sample_views(current_samples@), sample_views(last_samples@)),
{
    let ghost cur = sample_views(current_samples@);
    let ghost prev = sample_views(last_samples@);
    let mut sanitized: Vec<Sample> = Vec::new();
    let n = current_samples.len();
    let mut i: usize = 0;
    while i < n
        invariant
            0 <= i <= n,
            n == current_samples@.len(),
            cur == sample_views(current_samples@),
            prev == sample_views(last_samples@),
            sanitized@.len() == i,
            sample_views(sanitized@) =~= sanitize_seq(cur, prev).take(i as int),
        decreases n - i,
    {
        let current_sample = &current_samples[i];
        proof {
            assert(current_sample@ == cur[i as int]);
        }
        match find_matching_sample(last_samples, current_sample) {
            Some(j) => {
                if current_sample.metric_type == MetricType::Counter && counter_rejected(
                    current_sample.value,
                    last_samples[j].value,
                ) {
                    sanitized.push(last_samples[j].clone());
                } else {
                    sanitized.push(current_sample.clone());
                }
            },
            None => {
                sanitized.push(current_sample.clone());
            },
        }
        proof {
            assert(sample_views(sanitized@) =~= sanitize_seq(cur, prev).take(i as int + 1));
        }
        i += 1;
    }
    proof {
        assert(sanitize_seq(cur, prev).take(n as int) =~= sanitize_seq(cur, prev));
    }
    sanitized
}

/// Law: a gauge sample is never substituted; its sanitized value is its
/// current value, whether or not a previous entry matches.
pub proof fn lemma_gauge_never_substituted(
    cur: Seq<SampleData>,
    prev: Seq<SampleData>,
    i: int,
)
    requires
        0 <= i < cur.len(),
        cur[i].metric_type == MetricType::Gauge,
    ensures
        sanitize_seq(cur, prev)[i] == cur[i],
{
}

/// Law: a counter sample with a matching previous entry is replaced by that
/// entry exactly when it decreased or its ratio to the previous value
/// exceeds 11/10; otherwise it is kept unchanged.
pub proof fn lemma_counter_substitution(cur: Seq<SampleData>, prev: Seq<SampleData>, i: int)
    requires
        0 <= i < cur.len(),
        cur[i].metric_type == MetricType::Counter,
        find_matching(prev, cur[i]) >= 0,
    ensures
        sanitize_seq(cur, prev)[i] == if counter_implausible(
            cur[i].value,
            prev[find_matching(prev, cur[i])].value,
        ) {
            prev[find_matching(prev, cur[i])]
        } else {
            cur[i]
        },
{
}

/// Law: with no previously accepted samples the filter is the identity
/// transform.
pub proof fn lemma_sanitize_no_previous(cur: Seq<SampleData>)
    ensures
        sanitize_seq(cur, Seq::<SampleData>::empty()) =~= cur,
{
}

/// Law: the filter keeps the count of the current samples, and at each
/// position the identity key of the current sample, so order and identity
/// are preserved whatever the previous samples hold.
pub proof fn lemma_sanitize_preserves_shape(cur: Seq<SampleData>, prev: Seq<SampleData>)
    ensures
        sanitize_seq(cur, prev).len() == cur.len(),
        forall|i: int|
            0 <= i < cur.len() ==> same_identity(#[trigger] sanitize_seq(cur, prev)[i], cur[i]),
{
    assert forall|i: int| 0 <= i < cur.len() implies same_identity(
        #[trigger] sanitize_seq(cur, prev)[i],
        cur[i],
    ) by {
        lemma_find_matching_props(prev, cur[i]);
    }
}

/// Law: the filter is a pure function of its inputs; two runs on identical
/// inputs return identical output, there is no hidden state.
pub proof fn lemma_sanitize_deterministic(
    cur: Seq<SampleData>,
    prev: Seq<SampleData>,
    r1: Seq<SampleData>,
    r2: Seq<SampleData>,
)
    requires
        r1 == sanitize_seq(cur, prev),
        r2 == sanitize_seq(cur, prev),
    ensures
        r1 == r2,
{
}

} // verus!



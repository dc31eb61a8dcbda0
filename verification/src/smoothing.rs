//! Altitude smoothing.
//!
//! A 3-point running median over the altitude series: single-sample
//! altimeter spikes vanish while real elevation trends survive.  The
//! endpoints repeat their own value, so the output has the length of the
//! input.

use crate::models::Sample;
use vstd::prelude::*;

verus! {

/// The middle one of three values.
pub open spec fn median3_spec(a: int, b: int, c: int) -> int {
    if (a <= b && b <= c) || (c <= b && b <= a) {
        b
    } else if (b <= a && a <= c) || (c <= a && a <= b) {
        a
    } else {
        c
    }
}

/// The altitude of sample `i`, in mm.
pub open spec fn alt_of(s: Seq<Sample>, i: int) -> int {
    s[i].altitude_mm as int
}

/// The smoothed altitude at index `i`: the median of the 3-point window
/// around `i`, where a missing neighbour repeats the boundary value.
pub open spec fn smoothed_alt_spec(s: Seq<Sample>, i: int) -> int {
    let a0 = if i > 0 {
        alt_of(s, i - 1)
    } else {
        alt_of(s, i)
    };
    let a2 = if i + 1 < s.len() {
        alt_of(s, i + 1)
    } else {
        alt_of(s, i)
    };
    median3_spec(a0, alt_of(s, i), a2)
}

/// The middle one of three values.
fn median3(a: i64, b: i64, c: i64) -> (r: i64)
    ensures
        r == median3_spec(a as int, b as int, c as int),
{
    if (a <= b && b <= c) || (c <= b && b <= a) {
        b
    } else if (b <= a && a <= c) || (c <= a && a <= b) {
        a
    } else {
        c
    }
}

/// The smoothed altitude series of a segment, in mm: per index the median
/// of the 3-point window, endpoints repeating themselves.  Always succeeds;
/// an empty segment yields an empty series.
pub fn smooth_altitude(samples: &Vec<Sample>) -> (out: Vec<i64>)
    ensures
        out@.len() == samples@.len(),
        forall|i: int|
            0 <= i < out@.len() ==> #[trigger] out@[i] == smoothed_alt_spec(samples@, i),
{
    let n = samples.len();
    let mut out: Vec<i64> = Vec::new();
    let mut i: usize = 0;
    while i < n
        invariant
            n == samples@.len(),
            i <= n,
            out@.len() == i,
            forall|j: int|
                0 <= j < i ==> #[trigger] out@[j] == smoothed_alt_spec(samples@, j),
        decreases n - i,
    {
        let a0 = if i > 0 {
            samples[i - 1].altitude_mm
        } else {
            samples[i].altitude_mm
        };
        let a1 = samples[i].altitude_mm;
        let a2 = if i + 1 < n {
            samples[i + 1].altitude_mm
        } else {
            samples[i].altitude_mm
        };
        out.push(median3(a0, a1, a2));
        i += 1;
    }
    out
}

/// On a constant altitude series the smoother is the identity: every
/// window holds a single value, whose median is that value.
pub proof fn lemma_smooth_constant_input(s: Seq<Sample>, k: int)
    requires
        forall|i: int| 0 <= i < s.len() ==> #[trigger] alt_of(s, i) == k,
    ensures
        forall|i: int| 0 <= i < s.len() ==> #[trigger] smoothed_alt_spec(s, i) == k,
{
}

/// A single-sample spike between two equal neighbours is replaced by the
/// neighbour value: the median of {x, spike, x} is x, whatever the spike.
pub proof fn lemma_smooth_spike_suppressed(s: Seq<Sample>, i: int)
    requires
        1 <= i,
        i + 1 < s.len(),
        alt_of(s, i - 1) == alt_of(s, i + 1),
    ensures
        smoothed_alt_spec(s, i) == alt_of(s, i - 1),
{
}

} // verus!

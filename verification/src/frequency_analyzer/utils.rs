//! Building blocks shared by the band mapping strategies: sums and means over
//! bin ranges, and the three ways of turning per-band measurements into an
//! output sequence.

use crate::config::AudioVisualizerConfig;
use vstd::prelude::*;

verus! {

/// Sum of the magnitudes `s[lo], .., s[hi - 1]`; zero for an empty range.
pub open spec fn sum_range(s: Seq<u32>, lo: int, hi: int) -> int
    decreases hi - lo,
{
    if hi <= lo {
        0
    } else {
        sum_range(s, lo, hi - 1) + s[hi - 1] as int
    }
}

/// Arithmetic mean (rounded down) of the magnitudes in `lo..hi`.
pub open spec fn mean_range(s: Seq<u32>, lo: int, hi: int) -> int {
    sum_range(s, lo, hi) / (hi - lo)
}

/// The measurement of one band: nothing when its bin range is empty,
/// otherwise the mean magnitude over the range.
pub open spec fn band_value(s: Seq<u32>, lo: int, hi: int) -> Option<u32> {
    if hi <= lo {
        None
    } else {
        Some(mean_range(s, lo, hi) as u32)
    }
}

/// A sum over a range never exceeds the range's width times the largest magnitude.
pub proof fn lemma_sum_range_bounds(s: Seq<u32>, lo: int, hi: int)
    requires
        0 <= lo <= hi <= s.len(),
    ensures
        0 <= sum_range(s, lo, hi) <= (hi - lo) * 0xffff_ffff,
    decreases hi - lo,
{
    if lo < hi {
        lemma_sum_range_bounds(s, lo, hi - 1);
    }
}

/// A sum over a range whose magnitudes all equal `m` is the width times `m`.
pub proof fn lemma_sum_range_constant(s: Seq<u32>, lo: int, hi: int, m: u32)
    requires
        0 <= lo <= hi <= s.len(),
        forall|j: int| lo <= j < hi ==> s[j] == m,
    ensures
        sum_range(s, lo, hi) == (hi - lo) * m,
    decreases hi - lo,
{
    let w = hi - lo;
    if lo < hi {
        lemma_sum_range_constant(s, lo, hi - 1, m);
        assert((w - 1) * m + m == w * m) by (nonlinear_arith);
    } else {
        assert(w * m == 0) by (nonlinear_arith)
            requires
                w == 0,
        ;
    }
}

/// The mean over a non-empty range is a `u32`, and lies between the smallest
/// and largest representable magnitude.
pub proof fn lemma_mean_range_bounds(s: Seq<u32>, lo: int, hi: int)
    requires
        0 <= lo < hi <= s.len(),
    ensures
        0 <= mean_range(s, lo, hi) <= 0xffff_ffff,
{
    lemma_sum_range_bounds(s, lo, hi);
    let sum = sum_range(s, lo, hi);
    let w = hi - lo;
    assert(0 <= sum / w <= 0xffff_ffff) by (nonlinear_arith)
        requires
            0 <= sum <= w * 0xffff_ffff,
            w > 0,
    ;
}

/// The mean of a range of equal magnitudes is that magnitude.
pub proof fn lemma_mean_range_constant(s: Seq<u32>, lo: int, hi: int, m: u32)
    requires
        0 <= lo < hi <= s.len(),
        forall|j: int| lo <= j < hi ==> s[j] == m,
    ensures
        mean_range(s, lo, hi) == m,
{
    lemma_sum_range_constant(s, lo, hi, m);
    let w = hi - lo;
    assert((w * m) / w == m) by (nonlinear_arith)
        requires
            w > 0,
    ;
}

/// Sums the magnitudes in `start..end`.
pub fn range_sum(spectrum: &[u32], start: usize, end: usize) -> (sum: u128)
    requires
        start <= end <= spectrum@.len(),
    ensures
        sum == sum_range(spectrum@, start as int, end as int),
        sum <= (end - start) * 0xffff_ffff,
{
    let mut sum: u128 = 0;
    let mut j: usize = start;
    while j < end
        invariant
            start <= j <= end <= spectrum@.len(),
            sum == sum_range(spectrum@, start as int, j as int),
            sum <= (j - start) * 0xffff_ffff,
        decreases end - j,
    {
        assert((j - start) * 0xffff_ffff + 0xffff_ffff <= usize::MAX * 0xffff_ffff) by (nonlinear_arith)
            requires
                start <= j < usize::MAX,
        ;
        sum = sum + spectrum[j] as u128;
        j = j + 1;
    }
    sum
}

/// Measures one band: the mean magnitude over `start..end`, or nothing when
/// the range is empty.
pub fn measure_band(spectrum: &[u32], start: usize, end: usize) -> (value: Option<u32>)
    requires
        end <= spectrum@.len(),
    ensures
        value == band_value(spectrum@, start as int, end as int),
{
    if end <= start {
        return None;
    }
    let sum = range_sum(spectrum, start, end);
    let width = (end - start) as u128;
    proof {
        lemma_mean_range_bounds(spectrum@, start as int, end as int);
    }
    Some((sum / width) as u32)
}

/// Every band in order, with zero standing in for a band that was not measured.
pub open spec fn zero_fill(m: Seq<Option<u32>>) -> Seq<u32> {
    Seq::new(
        m.len(),
        |i: int|
            match m[i] {
                Some(v) => v,
                None => 0u32,
            },
    )
}

/// The measured bands in order, with the unmeasured ones left out.
pub open spec fn compact(m: Seq<Option<u32>>) -> Seq<u32>
    decreases m.len(),
{
    if m.len() == 0 {
        Seq::<u32>::empty()
    } else {
        match m.last() {
            Some(v) => compact(m.drop_last()).push(v),
            None => compact(m.drop_last()),
        }
    }
}

/// How many of the bands were measured.
pub open spec fn count_measured(m: Seq<Option<u32>>) -> nat
    decreases m.len(),
{
    if m.len() == 0 {
        0
    } else if m.last() is Some {
        count_measured(m.drop_last()) + 1
    } else {
        count_measured(m.drop_last())
    }
}

/// Index of the nearest measured band before `i`, or `-1` when there is none.
pub open spec fn prev_measured(m: Seq<Option<u32>>, i: int) -> int
    decreases i,
{
    if i <= 0 {
        -1
    } else if m[i - 1] is Some {
        i - 1
    } else {
        prev_measured(m, i - 1)
    }
}

/// Index of the nearest measured band after `i`, or `m.len()` when there is none.
pub open spec fn next_measured(m: Seq<Option<u32>>, i: int) -> int
    decreases m.len() - i,
{
    if i + 1 >= m.len() {
        m.len() as int
    } else if m[i + 1] is Some {
        i + 1
    } else {
        next_measured(m, i + 1)
    }
}

/// Value at position `i` on the straight line from `a` at position `p` to `b`
/// at position `q`, rounded down.
pub open spec fn lerp(a: u32, b: u32, p: int, i: int, q: int) -> int {
    (a * (q - i) + b * (i - p)) / (q - p)
}

/// Nine tenths of `v`, rounded down.
pub open spec fn attenuate(v: u32) -> int {
    v * 9 / 10
}

/// The value given to a band that was not measured and has no measured
/// neighbour on either side: one tenth of full scale.
pub const ISOLATED_BAND: u32 = 100_000;

/// The value of band `i` after interpolation: its own measurement if it has
/// one; otherwise the point on the line between the nearest measured bands on
/// both sides, or the single nearest measured band attenuated, or
/// [`ISOLATED_BAND`] when no band was measured at all.
pub open spec fn interpolate_at(m: Seq<Option<u32>>, i: int) -> u32 {
    let p = prev_measured(m, i);
    let q = next_measured(m, i);
    match m[i] {
        Some(v) => v,
        None => if p >= 0 && q < m.len() {
            lerp(m[p].unwrap(), m[q].unwrap(), p, i, q) as u32
        } else if p >= 0 {
            attenuate(m[p].unwrap()) as u32
        } else if q < m.len() {
            attenuate(m[q].unwrap()) as u32
        } else {
            ISOLATED_BAND
        },
    }
}

/// Every band in order, with the unmeasured ones filled in from their neighbours.
pub open spec fn interpolate(m: Seq<Option<u32>>) -> Seq<u32> {
    Seq::new(m.len(), |i: int| interpolate_at(m, i))
}

/// `prev_measured` names a measured band before `i` with only unmeasured
/// bands in between, or `-1` when every band before `i` is unmeasured.
pub proof fn lemma_prev_measured(m: Seq<Option<u32>>, i: int)
    requires
        0 <= i <= m.len(),
    ensures
        -1 <= prev_measured(m, i) < i,
        prev_measured(m, i) >= 0 ==> m[prev_measured(m, i)] is Some,
        forall|j: int| prev_measured(m, i) < j < i ==> m[j] is None,
    decreases i,
{
    if i > 0 && !(m[i - 1] is Some) {
        lemma_prev_measured(m, i - 1);
    }
}

/// `next_measured` names a measured band after `i` with only unmeasured bands
/// in between, or `m.len()` when every band after `i` is unmeasured.
pub proof fn lemma_next_measured(m: Seq<Option<u32>>, i: int)
    requires
        -1 <= i < m.len(),
    ensures
        i < next_measured(m, i) <= m.len(),
        next_measured(m, i) < m.len() ==> m[next_measured(m, i)] is Some,
        forall|j: int| i < j < next_measured(m, i) ==> m[j] is None,
    decreases m.len() - i,
{
    if i + 1 < m.len() && !(m[i + 1] is Some) {
        lemma_next_measured(m, i + 1);
    }
}

/// A point on the line between two values lies between them.
pub proof fn lemma_lerp_between(a: u32, b: u32, p: int, i: int, q: int)
    requires
        p < i < q,
    ensures
        a <= b ==> a <= lerp(a, b, p, i, q) <= b,
        b <= a ==> b <= lerp(a, b, p, i, q) <= a,
{
    let d = q - p;
    let w1 = q - i;
    let w2 = i - p;
    let total = a * w1 + b * w2;
    if a <= b {
        assert(a * d <= total <= b * d) by (nonlinear_arith)
            requires
                a <= b,
                w1 > 0,
                w2 > 0,
                d == w1 + w2,
                total == a * w1 + b * w2,
        ;
        assert(a <= total / d <= b) by (nonlinear_arith)
            requires
                a * d <= total <= b * d,
                d > 0,
        ;
    }
    if b <= a {
        assert(b * d <= total <= a * d) by (nonlinear_arith)
            requires
                b <= a,
                w1 > 0,
                w2 > 0,
                d == w1 + w2,
                total == a * w1 + b * w2,
        ;
        assert(b <= total / d <= a) by (nonlinear_arith)
            requires
                b * d <= total <= a * d,
                d > 0,
        ;
    }
}

/// An unmeasured band with a measured band on both sides is given a value
/// between those two neighbours' values, inclusive.
pub proof fn lemma_interpolated_between_neighbours(m: Seq<Option<u32>>, i: int)
    requires
        0 <= i < m.len(),
        m[i] is None,
        prev_measured(m, i) >= 0,
        next_measured(m, i) < m.len(),
    ensures
        ({
            let a = m[prev_measured(m, i)].unwrap();
            let b = m[next_measured(m, i)].unwrap();
            &&& a <= b ==> a <= interpolate(m)[i] <= b
            &&& b <= a ==> b <= interpolate(m)[i] <= a
        }),
{
    lemma_prev_measured(m, i);
    lemma_next_measured(m, i);
    let p = prev_measured(m, i);
    let q = next_measured(m, i);
    lemma_lerp_between(m[p].unwrap(), m[q].unwrap(), p, i, q);
}

/// Leaving out the unmeasured bands keeps exactly as many bands as were
/// measured: never more than there were, and strictly fewer as soon as one
/// band is unmeasured.
pub proof fn lemma_compact_len(m: Seq<Option<u32>>)
    ensures
        compact(m).len() == count_measured(m),
        count_measured(m) <= m.len(),
        (exists|i: int| 0 <= i < m.len() && m[i] is None) ==> compact(m).len() < m.len(),
        (forall|i: int| 0 <= i < m.len() ==> m[i] is Some) ==> compact(m).len() == m.len(),
    decreases m.len(),
{
    if m.len() > 0 {
        let rest = m.drop_last();
        lemma_compact_len(rest);
        if exists|i: int| 0 <= i < m.len() && m[i] is None {
            let i = choose|i: int| 0 <= i < m.len() && m[i] is None;
            if i < rest.len() {
                assert(rest[i] is None);
            }
        }
        if forall|i: int| 0 <= i < m.len() ==> m[i] is Some {
            assert forall|i: int| 0 <= i < rest.len() implies rest[i] is Some by {
                assert(m[i] is Some);
            }
        }
    }
}

/// When every band was measured, leaving out the unmeasured ones changes
/// nothing.
pub proof fn lemma_compact_all_measured(m: Seq<Option<u32>>)
    requires
        forall|i: int| 0 <= i < m.len() ==> m[i] is Some,
    ensures
        compact(m) == zero_fill(m),
    decreases m.len(),
{
    if m.len() > 0 {
        let rest = m.drop_last();
        assert forall|i: int| 0 <= i < rest.len() implies rest[i] is Some by {
            assert(m[i] is Some);
        }
        lemma_compact_all_measured(rest);
        assert(m.last() is Some);
        assert(compact(m) =~= zero_fill(m));
    } else {
        assert(compact(m) =~= zero_fill(m));
    }
}

/// Emits every band, writing zero for each unmeasured one.
pub fn zero_filled(m: &Vec<Option<u32>>) -> (bands: Vec<u32>)
    ensures
        bands@ == zero_fill(m@),
{
    let mut bands: Vec<u32> = Vec::new();
    let mut i: usize = 0;
    while i < m.len()
        invariant
            i <= m.len(),
            bands@.len() == i,
            forall|k: int| 0 <= k < i ==> bands@[k] == zero_fill(m@)[k],
        decreases m.len() - i,
    {
        match m[i] {
            Some(v) => bands.push(v),
            None => bands.push(0),
        }
        i = i + 1;
    }
    bands
}

/// Emits only the measured bands, in order.
pub fn measured_only(m: &Vec<Option<u32>>) -> (bands: Vec<u32>)
    ensures
        bands@ == compact(m@),
{
    let mut bands: Vec<u32> = Vec::new();
    let mut i: usize = 0;
    while i < m.len()
        invariant
            i <= m.len(),
            bands@ == compact(m@.take(i as int)),
        decreases m.len() - i,
    {
        proof {
            assert(m@.take(i + 1).drop_last() == m@.take(i as int));
            assert(m@.take(i + 1).last() == m@[i as int]);
        }
        match m[i] {
            Some(v) => bands.push(v),
            None => {},
        }
        i = i + 1;
    }
    proof {
        assert(m@.take(m@.len() as int) == m@);
    }
    bands
}

/// Finds the nearest measured band after `i`, scanning upwards.
pub fn find_next_measured(m: &Vec<Option<u32>>, i: usize) -> (next: usize)
    requires
        i < m@.len(),
    ensures
        next == next_measured(m@, i as int),
{
    let n = m.len();
    let mut j: usize = i + 1;
    while j < n
        invariant
            n == m@.len(),
            i < j <= n,
            next_measured(m@, i as int) == next_measured(m@, j - 1),
        decreases n - j,
    {
        if m[j].is_some() {
            return j;
        }
        j = j + 1;
    }
    j
}

/// Computes the point on the line from `a` at `p` to `b` at `q`.
pub fn lerp_value(a: u32, b: u32, p: usize, i: usize, q: usize) -> (v: u32)
    requires
        p < i < q,
    ensures
        v == lerp(a, b, p as int, i as int, q as int),
{
    let w1 = (q - i) as u128;
    let w2 = (i - p) as u128;
    let d = (q - p) as u128;
    proof {
        lemma_lerp_between(a, b, p as int, i as int, q as int);
        assert(a * w1 <= 0xffff_ffff * 0xffff_ffff_ffff_ffff) by (nonlinear_arith)
            requires
                a <= 0xffff_ffff,
                w1 <= 0xffff_ffff_ffff_ffff,
        ;
        assert(b * w2 <= 0xffff_ffff * 0xffff_ffff_ffff_ffff) by (nonlinear_arith)
            requires
                b <= 0xffff_ffff,
                w2 <= 0xffff_ffff_ffff_ffff,
        ;
    }
    let total = a as u128 * w1 + b as u128 * w2;
    (total / d) as u32
}

/// Emits every band, filling each unmeasured one from its measured neighbours.
pub fn interpolated(m: &Vec<Option<u32>>) -> (bands: Vec<u32>)
    ensures
        bands@ == interpolate(m@),
{
    let n = m.len();
    let mut bands: Vec<u32> = Vec::new();
    let mut prev: Option<usize> = None;
    let mut i: usize = 0;
    while i < n
        invariant
            n == m@.len(),
            i <= n,
            bands@.len() == i,
            forall|k: int| 0 <= k < i ==> bands@[k] == interpolate_at(m@, k),
            match prev {
                Some(p) => p == prev_measured(m@, i as int),
                None => prev_measured(m@, i as int) == -1,
            },
        decreases n - i,
    {
        proof {
            lemma_prev_measured(m@, i as int);
            lemma_next_measured(m@, i as int);
        }
        match m[i] {
            Some(v) => {
                bands.push(v);
                prev = Some(i);
            },
            None => {
                let next = find_next_measured(m, i);
                let value = match prev {
                    Some(p) => {
                        let a = m[p].unwrap();
                        if next < n {
                            lerp_value(a, m[next].unwrap(), p, i, next)
                        } else {
                            ((a as u64) * 9 / 10) as u32
                        }
                    },
                    None => {
                        if next < n {
                            ((m[next].unwrap() as u64) * 9 / 10) as u32
                        } else {
                            ISOLATED_BAND
                        }
                    },
                };
                bands.push(value);
            },
        }
        i = i + 1;
    }
    bands
}

/// Number of bands produced from `available` band positions: one per
/// position, but never more than `num_bands`.
pub open spec fn band_count(num_bands: usize, available: nat) -> nat {
    if num_bands <= available {
        num_bands as nat
    } else {
        available
    }
}

/// First bin of a band whose position starts at `edge.0`, once confined to
/// the analysed bins.
pub open spec fn clamped_start(edge: (usize, usize), min_bin: usize) -> int {
    if edge.0 >= min_bin {
        edge.0 as int
    } else {
        min_bin as int
    }
}

/// End bin (exclusive) of a band whose position ends at `edge.1`, once
/// confined to the analysed bins.
pub open spec fn clamped_end(edge: (usize, usize), max_bin: usize) -> int {
    if edge.1 <= max_bin {
        edge.1 as int
    } else {
        max_bin as int
    }
}

/// The measurements of the first `count` bands, each taken over its position
/// confined to `min_bin..max_bin`.
pub open spec fn measure_clamped(
    s: Seq<u32>,
    edges: Seq<(usize, usize)>,
    count: nat,
    min_bin: usize,
    max_bin: usize,
) -> Seq<Option<u32>> {
    Seq::new(
        count,
        |i: int| band_value(s, clamped_start(edges[i], min_bin), clamped_end(edges[i], max_bin)),
    )
}

/// Measures the first `min(num_bands, edges.len())` bands, each over its
/// position confined to `min_bin..max_bin`.
pub fn clamped_measurements(
    spectrum: &[u32],
    edges: &[(usize, usize)],
    num_bands: usize,
    min_bin: usize,
    max_bin: usize,
) -> (m: Vec<Option<u32>>)
    requires
        max_bin <= spectrum@.len(),
    ensures
        m@ == measure_clamped(
            spectrum@,
            edges@,
            band_count(num_bands, edges@.len()),
            min_bin,
            max_bin,
        ),
{
    let count = if num_bands <= edges.len() {
        num_bands
    } else {
        edges.len()
    };
    let mut m: Vec<Option<u32>> = Vec::new();
    let mut i: usize = 0;
    while i < count
        invariant
            i <= count <= edges@.len(),
            count == band_count(num_bands, edges@.len()),
            max_bin <= spectrum@.len(),
            m@.len() == i,
            forall|k: int|
                0 <= k < i ==> m@[k] == band_value(
                    spectrum@,
                    clamped_start(edges@[k], min_bin),
                    clamped_end(edges@[k], max_bin),
                ),
        decreases count - i,
    {
        let edge = edges[i];
        let start = if edge.0 >= min_bin {
            edge.0
        } else {
            min_bin
        };
        let end = if edge.1 <= max_bin {
            edge.1
        } else {
            max_bin
        };
        m.push(measure_band(spectrum, start, end));
        i = i + 1;
    }
    m
}

/// The centre frequencies of `table` that lie within `min_freq..=max_freq`,
/// in table order.
pub open spec fn centers_in_range(table: Seq<u32>, min_freq: u32, max_freq: u32) -> Seq<u32>
    decreases table.len(),
{
    if table.len() == 0 {
        Seq::<u32>::empty()
    } else if min_freq <= table.last() <= max_freq {
        centers_in_range(table.drop_last(), min_freq, max_freq).push(table.last())
    } else {
        centers_in_range(table.drop_last(), min_freq, max_freq)
    }
}

/// Every frequency kept by `centers_in_range` lies within the range, and no
/// more frequencies are kept than the table holds.
pub proof fn lemma_centers_in_range(table: Seq<u32>, min_freq: u32, max_freq: u32)
    ensures
        centers_in_range(table, min_freq, max_freq).len() <= table.len(),
        forall|k: int|
            0 <= k < centers_in_range(table, min_freq, max_freq).len() ==> min_freq
                <= #[trigger] centers_in_range(table, min_freq, max_freq)[k] <= max_freq,
    decreases table.len(),
{
    if table.len() > 0 {
        lemma_centers_in_range(table.drop_last(), min_freq, max_freq);
    }
}

/// The standard third-octave centre frequencies, 31.5 Hz to 20 kHz, in millihertz.
pub const THIRD_OCTAVE_CENTERS: [u32; 29] = [
    31_500,
    40_000,
    50_000,
    63_000,
    80_000,
    100_000,
    125_000,
    160_000,
    200_000,
    250_000,
    315_000,
    400_000,
    500_000,
    630_000,
    800_000,
    1_000_000,
    1_250_000,
    1_600_000,
    2_000_000,
    2_500_000,
    3_150_000,
    4_000_000,
    5_000_000,
    6_300_000,
    8_000_000,
    10_000_000,
    12_500_000,
    16_000_000,
    20_000_000,
];

/// The standard octave centre frequencies, 31.5 Hz to 16 kHz, in millihertz.
pub const OCTAVE_CENTERS: [u32; 10] = [
    31_500,
    63_000,
    125_000,
    250_000,
    500_000,
    1_000_000,
    2_000_000,
    4_000_000,
    8_000_000,
    16_000_000,
];

/// Collects the frequencies of `table` that lie within `min_freq..=max_freq`.
pub fn select_centers(table: &[u32], min_freq: u32, max_freq: u32) -> (centers: Vec<u32>)
    ensures
        centers@ == centers_in_range(table@, min_freq, max_freq),
{
    let mut centers: Vec<u32> = Vec::new();
    let mut i: usize = 0;
    while i < table.len()
        invariant
            i <= table@.len(),
            centers@ == centers_in_range(table@.take(i as int), min_freq, max_freq),
        decreases table.len() - i,
    {
        proof {
            assert(table@.take(i + 1).drop_last() == table@.take(i as int));
            assert(table@.take(i + 1).last() == table@[i as int]);
        }
        let freq = table[i];
        if min_freq <= freq && freq <= max_freq {
            centers.push(freq);
        }
        i = i + 1;
    }
    proof {
        assert(table@.take(table@.len() as int) == table@);
    }
    centers
}

/// The third-octave centre frequencies within the configured range.
pub fn generate_third_octave_centers(config: &AudioVisualizerConfig) -> (centers: Vec<u32>)
    ensures
        centers@ == centers_in_range(THIRD_OCTAVE_CENTERS@, config.min_freq, config.max_freq),
{
    let table = THIRD_OCTAVE_CENTERS;
    select_centers(table.as_slice(), config.min_freq, config.max_freq)
}

/// The octave centre frequencies within the configured range.
pub fn generate_octave_centers(config: &AudioVisualizerConfig) -> (centers: Vec<u32>)
    ensures
        centers@ == centers_in_range(OCTAVE_CENTERS@, config.min_freq, config.max_freq),
{
    let table = OCTAVE_CENTERS;
    select_centers(table.as_slice(), config.min_freq, config.max_freq)
}

/// End bin (exclusive) of an octave-style band positioned at `edge`: the
/// band's upper bin, or the end of the spectrum where the band reaches past
/// it.
pub open spec fn octave_end(s: Seq<u32>, edge: (usize, usize)) -> int {
    if edge.1 <= s.len() {
        edge.1 as int
    } else {
        s.len() as int
    }
}

/// The value of an octave-style band positioned at `edge`: the mean
/// magnitude over the bins of the spectrum that lie in `edge.0..edge.1`, or
/// zero when there is no such bin.
pub open spec fn octave_value(s: Seq<u32>, edge: (usize, usize)) -> u32 {
    match band_value(s, edge.0 as int, octave_end(s, edge)) {
        Some(v) => v,
        None => 0u32,
    }
}

/// The first `count` octave-style bands.
pub open spec fn octave_bands(s: Seq<u32>, edges: Seq<(usize, usize)>, count: nat) -> Seq<u32> {
    Seq::new(count, |i: int| octave_value(s, edges[i]))
}

/// An octave-style band over bins that all hold the same magnitude is that
/// magnitude, also where the band reaches past the end of the spectrum.
pub proof fn lemma_octave_value_constant(s: Seq<u32>, edge: (usize, usize), m: u32)
    requires
        edge.0 < edge.1,
        edge.0 < s.len(),
        forall|j: int| edge.0 <= j < edge.1 && j < s.len() ==> s[j] == m,
    ensures
        octave_value(s, edge) == m,
{
    lemma_mean_range_constant(s, edge.0 as int, octave_end(s, edge), m);
}

/// Computes the first `min(num_bands, edges.len())` octave-style bands.
pub fn compute_octave_bands(spectrum: &[u32], edges: &[(usize, usize)], num_bands: usize) -> (bands:
    Vec<u32>)
    ensures
        bands@ == octave_bands(spectrum@, edges@, band_count(num_bands, edges@.len())),
{
    let count = if num_bands <= edges.len() {
        num_bands
    } else {
        edges.len()
    };
    let len = spectrum.len();
    let mut bands: Vec<u32> = Vec::new();
    let mut i: usize = 0;
    while i < count
        invariant
            i <= count <= edges@.len(),
            count == band_count(num_bands, edges@.len()),
            len == spectrum@.len(),
            bands@.len() == i,
            forall|k: int| 0 <= k < i ==> bands@[k] == octave_value(spectrum@, edges@[k]),
        decreases count - i,
    {
        let edge = edges[i];
        let end = if edge.1 <= len {
            edge.1
        } else {
            len
        };
        match measure_band(spectrum, edge.0, end) {
            Some(value) => bands.push(value),
            None => bands.push(0),
        }
        i = i + 1;
    }
    bands
}

} // verus!

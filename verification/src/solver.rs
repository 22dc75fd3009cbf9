//! Picking evenly spaced samples from an integrated curve.
use vstd::prelude::*;

verus! {

/// `num / den` rounded to the nearest integer, halves rounded up (for `num >= 0`, `den > 0`).
pub open spec fn rounded_ratio(num: int, den: int) -> int {
    (2 * num + den) / (2 * den)
}

/// The `i`-th of `sample_count` indices spread evenly over `0..=item_count - 1`:
/// `round(i * (item_count - 1) / (sample_count - 1))`, or 0 for a single sample.
///
/// The ratio is taken exactly, in integers, and an exact half rounds up. Computing it
/// as `i / (sample_count - 1)` in `f64` and then scaling by `item_count - 1` can land
/// just below a half (for 40 items and 27 samples, sample 15 gives 22.499999999999996)
/// and so pick the item before; this exact rule picks the nearest item in every case.
pub open spec fn spaced_index(i: int, item_count: int, sample_count: int) -> int {
    if sample_count == 1 {
        0
    } else {
        rounded_ratio(i * (item_count - 1), sample_count - 1)
    }
}

proof fn lemma_rounded_ratio_quot(num: int, den: int, q: int, r: int)
    requires
        num >= 0,
        den > 0,
        num == q * den + r,
        0 <= r < den,
    ensures
        rounded_ratio(num, den) == if 2 * r >= den {
            q + 1
        } else {
            q
        },
{
    let x = 2 * num + den;
    let d = 2 * den;
    let extra: int = if 2 * r >= den { 1 } else { 0 };
    let rest = 2 * r + den - extra * d;
    assert(x == (q + extra) * d + rest) by (nonlinear_arith)
        requires
            x == 2 * num + den,
            d == 2 * den,
            num == q * den + r,
            rest == 2 * r + den - extra * d,
    ;
    assert(0 <= rest < d);
    vstd::arithmetic::div_mod::lemma_fundamental_div_mod_converse(x, d, q + extra, rest);
}

proof fn lemma_rounded_ratio_bounds(i: int, last: int, den: int)
    requires
        0 <= i <= den,
        den > 0,
        last >= 0,
    ensures
        0 <= rounded_ratio(i * last, den) <= last,
{
    let num = i * last;
    assert(0 <= num <= den * last) by (nonlinear_arith)
        requires
            0 <= i <= den,
            last >= 0,
            num == i * last,
    ;
    assert(2 * num + den < 2 * den * (last + 1)) by (nonlinear_arith)
        requires
            num <= den * last,
            den > 0,
    ;
    vstd::arithmetic::div_mod::lemma_div_pos_is_pos(2 * num + den, 2 * den);
    vstd::arithmetic::div_mod::lemma_div_by_multiple_is_strongly_ordered(
        2 * num + den,
        2 * den * (last + 1),
        last + 1,
        2 * den,
    );
    assert(2 * den * (last + 1) == (last + 1) * (2 * den)) by (nonlinear_arith);
    vstd::arithmetic::div_mod::lemma_div_by_multiple(last + 1, 2 * den);
}

/// Map `sample_count` evenly spaced indices into `0..=item_count - 1`.
fn evenly_spaced_indices(item_count: usize, sample_count: usize) -> (res: Vec<usize>)
    requires
        item_count > 0,
        sample_count > 0,
    ensures
        res@.len() == sample_count,
        forall|i: int|
            0 <= i < sample_count ==> #[trigger] res@[i] == spaced_index(
                i,
                item_count as int,
                sample_count as int,
            ),
        forall|i: int| 0 <= i < sample_count ==> #[trigger] res@[i] < item_count,
{
    if sample_count == 1 {
        return vec![0];
    }
    let last = item_count - 1;
    let den = sample_count - 1;
    let mut out: Vec<usize> = Vec::new();
    let mut i: usize = 0;
    while i < sample_count
        invariant
            last == item_count - 1,
            den == sample_count - 1,
            sample_count > 1,
            i <= sample_count,
            out@.len() == i,
            forall|k: int|
                0 <= k < i ==> #[trigger] out@[k] == spaced_index(
                    k,
                    item_count as int,
                    sample_count as int,
                ),
            forall|k: int| 0 <= k < i ==> #[trigger] out@[k] < item_count,
        decreases sample_count - i,
    {
        assert((i as u128) * (last as u128) <= u128::MAX) by (nonlinear_arith)
            requires
                i <= 0xFFFF_FFFF_FFFF_FFFFu128,
                last <= 0xFFFF_FFFF_FFFF_FFFFu128,
        ;
        let num: u128 = (i as u128) * (last as u128);
        let q: u128 = num / (den as u128);
        let r: u128 = num % (den as u128);
        proof {
            vstd::arithmetic::div_mod::lemma_fundamental_div_mod(num as int, den as int);
            lemma_rounded_ratio_quot(num as int, den as int, q as int, r as int);
            lemma_rounded_ratio_bounds(i as int, last as int, den as int);
        }
        let idx: u128 = if 2 * r >= den as u128 {
            q + 1
        } else {
            q
        };
        out.push(idx as usize);
        i += 1;
    }
    out
}

/// Why a curve could not be sampled.
#[derive(Debug, PartialEq, Eq)]
pub enum SampleError {
    /// Zero points were asked for.
    ZeroCount,
    /// The curve has no points.
    NoPoints,
}

impl SampleError {
    /// The message shown to the user.
    pub fn message(&self) -> (res: String)
        ensures
            res@ == match self {
                SampleError::ZeroCount => "number of points must be at least 1"@,
                SampleError::NoPoints => "no points to sample"@,
            },
    {
        match self {
            SampleError::ZeroCount => "number of points must be at least 1".to_owned(),
            SampleError::NoPoints => "no points to sample".to_owned(),
        }
    }
}

/// The `n` evenly spaced points of `points` (for `2 <= n < points.len()`).
pub open spec fn spaced_points<T>(points: Seq<T>, n: int) -> Seq<T> {
    Seq::new(n as nat, |i: int| points[spaced_index(i, points.len() as int, n)])
}

/// Subsampling as `subsample` performs it.
pub open spec fn subsample_spec<T>(points: Seq<T>, n: int) -> Result<Seq<T>, SampleError> {
    if n == 0 {
        Err(SampleError::ZeroCount)
    } else if points.len() == 0 {
        Err(SampleError::NoPoints)
    } else if n == 1 {
        Ok(seq![points[0]])
    } else if n >= points.len() {
        Ok(points)
    } else {
        Ok(spaced_points(points, n))
    }
}

/// The points at the given indices, in order.
fn gather<T: Copy>(points: &[T], idx: &Vec<usize>) -> (out: Vec<T>)
    requires
        forall|i: int| 0 <= i < idx@.len() ==> #[trigger] idx@[i] < points@.len(),
    ensures
        out@.len() == idx@.len(),
        forall|i: int| 0 <= i < idx@.len() ==> #[trigger] out@[i] == points@[idx@[i] as int],
{
    let mut out: Vec<T> = Vec::new();
    let mut k: usize = 0;
    while k < idx.len()
        invariant
            k <= idx@.len(),
            out@.len() == k,
            forall|i: int| 0 <= i < idx@.len() ==> #[trigger] idx@[i] < points@.len(),
            forall|i: int| 0 <= i < k ==> #[trigger] out@[i] == points@[idx@[i] as int],
        decreases idx.len() - k,
    {
        out.push(points[idx[k]]);
        k += 1;
    }
    out
}

/// Pick `n` points evenly spaced along an integrated curve.
pub fn subsample<T: Copy>(points: &[T], n: usize) -> (res: Result<Vec<T>, SampleError>)
    ensures
        match res {
            Ok(v) => subsample_spec(points@, n as int) == Ok::<Seq<T>, SampleError>(v@),
            Err(e) => subsample_spec(points@, n as int) == Err::<Seq<T>, SampleError>(e),
        },
{
    if n == 0 {
        return Err(SampleError::ZeroCount);
    }
    if points.len() == 0 {
        return Err(SampleError::NoPoints);
    }
    if n == 1 {
        let v = vec![points[0]];
        assert(v@ =~= seq![points@[0]]);
        return Ok(v);
    }
    if n >= points.len() {
        let mut v: Vec<T> = Vec::new();
        let mut k: usize = 0;
        while k < points.len()
            invariant
                k <= points@.len(),
                v@ == points@.take(k as int),
            decreases points.len() - k,
        {
            v.push(points[k]);
            assert(points@.take(k + 1) =~= points@.take(k as int).push(points@[k as int]));
            k += 1;
        }
        assert(points@.take(points@.len() as int) =~= points@);
        return Ok(v);
    }
    let idx = evenly_spaced_indices(points.len(), n);
    let out = gather(points, &idx);
    assert(out@ =~= spaced_points(points@, n as int));
    Ok(out)
}

/// What `subsample_plot` keeps of a curve.
pub open spec fn subsample_plot_spec<T>(points: Seq<T>, max: int) -> Seq<T> {
    if points.len() <= max {
        points
    } else {
        spaced_points(points, max)
    }
}

/// Cap points used for plotting: all points when there are at most `max`, otherwise
/// `max` evenly spaced samples.
pub fn subsample_plot<T: Copy>(points: &[T], max: usize) -> (res: Vec<T>)
    ensures
        res@ == subsample_plot_spec(points@, max as int),
{
    if points.len() <= max {
        let mut v: Vec<T> = Vec::new();
        let mut k: usize = 0;
        while k < points.len()
            invariant
                k <= points@.len(),
                v@ == points@.take(k as int),
            decreases points.len() - k,
        {
            v.push(points[k]);
            assert(points@.take(k + 1) =~= points@.take(k as int).push(points@[k as int]));
            k += 1;
        }
        assert(points@.take(points@.len() as int) =~= points@);
        return v;
    }
    if max == 0 {
        let v: Vec<T> = Vec::new();
        assert(v@ =~= spaced_points(points@, 0));
        return v;
    }
    let idx = evenly_spaced_indices(points.len(), max);
    let out = gather(points, &idx);
    if max == 1 {
        assert(out@ =~= spaced_points(points@, 1));
    }
    assert(out@ =~= spaced_points(points@, max as int));
    out
}

proof fn lemma_rounded_ratio_step(num: int, den: int, step: int)
    requires
        num >= 0,
        den > 0,
        step >= den,
    ensures
        rounded_ratio(num + step, den) >= rounded_ratio(num, den) + 1,
{
    let x = 2 * num + den;
    let d = 2 * den;
    vstd::arithmetic::div_mod::lemma_div_plus_one(x, d);
    assert(x + d <= 2 * (num + step) + den);
    vstd::arithmetic::div_mod::lemma_div_is_ordered(x + d, 2 * (num + step) + den, d);
}

/// Evenly spaced sampling of `n` out of `len >= n >= 2` points starts at the first
/// point, ends at the last, and moves strictly forward: the samples are distinct and in
/// curve order.
pub proof fn lemma_spaced_indices_ordered(len: int, n: int)
    requires
        2 <= n <= len,
    ensures
        spaced_index(0, len, n) == 0,
        spaced_index(n - 1, len, n) == len - 1,
        forall|i: int| 0 <= i < n - 1 ==> #[trigger] spaced_index(i, len, n) < spaced_index(i + 1, len, n),
        forall|i: int| 0 <= i < n ==> 0 <= #[trigger] spaced_index(i, len, n) < len,
{
    let den = n - 1;
    let last = len - 1;
    assert(0 * last == 0);
    vstd::arithmetic::div_mod::lemma_basic_div(den, 2 * den);
    assert((n - 1) * last == den * last);
    assert(2 * (den * last) + den == last * (2 * den) + den) by (nonlinear_arith);
    vstd::arithmetic::div_mod::lemma_fundamental_div_mod_converse(last * (2 * den) + den, 2 * den, last, den);
    assert forall|i: int| 0 <= i < n - 1 implies #[trigger] spaced_index(i, len, n) < spaced_index(i + 1, len, n) by {
        assert((i + 1) * last == i * last + last) by (nonlinear_arith);
        assert(i * last >= 0) by (nonlinear_arith) requires i >= 0, last >= 0;
        lemma_rounded_ratio_step(i * last, den, last);
    }
    assert forall|i: int| 0 <= i < n implies 0 <= #[trigger] spaced_index(i, len, n) < len by {
        lemma_rounded_ratio_bounds(i, last, den);
    }
}

/// Asking for at least as many points as a non-empty curve has gives back the whole
/// curve, every point in its place.
pub proof fn lemma_subsample_all_when_enough<T>(points: Seq<T>, n: int)
    requires
        points.len() >= 1,
        n >= points.len(),
    ensures
        subsample_spec(points, n) == Ok::<Seq<T>, SampleError>(points),
        subsample_plot_spec(points, n) == points,
{
    if n == 1 {
        assert(seq![points[0]] =~= points);
    }
}

/// Subsampling `n` points from a longer curve keeps its first and last points and
/// returns points in curve order, each taken from a distinct position.
pub proof fn lemma_subsample_keeps_ends<T>(points: Seq<T>, n: int)
    requires
        2 <= n < points.len(),
    ensures
        subsample_spec(points, n) matches Ok(s) && s.len() == n && s[0] == points[0] && s[n
            - 1] == points[points.len() - 1],
{
    lemma_spaced_indices_ordered(points.len() as int, n);
}

/// Subsampling succeeds exactly when at least one point is asked for from a non-empty
/// curve, and then yields `min(n, points.len())` points; plotting keeps
/// `min(points.len(), max)` points.
pub proof fn lemma_sample_sizes<T>(points: Seq<T>, n: int, max: int)
    requires
        n >= 0,
        max >= 0,
    ensures
        subsample_spec(points, n) is Ok <==> (n >= 1 && points.len() >= 1),
        subsample_spec(points, n) matches Ok(s) ==> s.len() == if n < points.len() {
            n
        } else {
            points.len() as int
        },
        subsample_plot_spec(points, max).len() == if max < points.len() {
            max
        } else {
            points.len() as int
        },
{
}

} // verus!

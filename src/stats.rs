//! The statistics engine: mean, median and variance of the throughput
//! samples, held as exact fractions of integers, and the stability criteria
//! that grade a run. Square roots are never taken: every criterion that
//! speaks of a standard deviation is decided by comparing squares.
use vstd::arithmetic::div_mod::{lemma_fundamental_div_mod, lemma_mod_pos_bound};
use vstd::prelude::*;
use vstd::relations::{sorted_by, total_ordering};
use vstd::seq_lib::lemma_sorted_unique;
use vstd::string::StringExecFns;

verus! {

/// The largest number of samples the engine accepts: with it every exact
/// intermediate value fits in 128 bits.
pub const MAX_SAMPLES: usize = 1048576;

/// The largest sample value the engine accepts.
pub const MAX_SAMPLE: u64 = 4294967295;

/// The square of the two-tailed t-score 3.291 of a 99.9% confidence
/// interval, as `T_SQUARED_NUMER / T_SQUARED_DENOM`.
pub const T_SQUARED_NUMER: u128 = 10830681;

pub const T_SQUARED_DENOM: u128 = 1000000;

/// The exact value `numer / denom`.
#[derive(Clone, Copy, Debug, PartialEq, Eq, Structural)]
pub struct Fraction {
    pub numer: u128,
    pub denom: u128,
}

/// Why a set of samples cannot be summarised.
#[derive(Clone, Copy, Debug, PartialEq, Eq, Structural)]
pub enum StatError {
    /// Fewer than two samples: there is no standard deviation.
    InsufficientData,
    /// More than `MAX_SAMPLES` samples.
    TooManySamples,
    /// A sample or the final speed is above `MAX_SAMPLE`.
    ValueTooLarge,
}

pub open spec fn sum(s: Seq<u64>) -> int
    decreases s.len(),
{
    if s.len() == 0 {
        0
    } else {
        sum(s.drop_last()) + s.last()
    }
}

pub open spec fn sq(x: int) -> int {
    x * x
}

/// The sum of `(n * x - total)^2` over the samples `x`. With `total` the sum
/// of the `n` samples this is `n^2` times the sum of squared deviations from
/// the mean.
pub open spec fn spread(s: Seq<u64>, total: int, n: int) -> int
    decreases s.len(),
{
    if s.len() == 0 {
        0
    } else {
        spread(s.drop_last(), total, n) + sq(n * s.last() - total)
    }
}

pub open spec fn ascending() -> spec_fn(u64, u64) -> bool {
    |a: u64, b: u64| a <= b
}

/// The samples in ascending order.
pub open spec fn sorted_samples(s: Seq<u64>) -> Seq<u64> {
    s.sort_by(ascending())
}

/// Twice the median: the middle sample of the sorted samples doubled, or the
/// sum of the two middle ones when their number is even.
pub open spec fn median_doubled(s: Seq<u64>) -> int {
    let t = sorted_samples(s);
    let n = s.len() as int;
    if n % 2 == 0 {
        t[n / 2 - 1] + t[n / 2]
    } else {
        2 * t[n / 2]
    }
}

/// Samples that the engine accepts.
pub open spec fn valid_samples(s: Seq<u64>) -> bool {
    &&& 1 <= s.len() <= MAX_SAMPLES
    &&& forall|i: int| 0 <= i < s.len() ==> s[i] <= MAX_SAMPLE
}

proof fn lemma_sum_bound(s: Seq<u64>)
    requires
        forall|i: int| 0 <= i < s.len() ==> s[i] <= MAX_SAMPLE,
    ensures
        0 <= sum(s) <= s.len() * MAX_SAMPLE,
    decreases s.len(),
{
    if s.len() > 0 {
        lemma_sum_bound(s.drop_last());
        assert(s.last() <= MAX_SAMPLE);
        assert(sum(s) <= s.len() * MAX_SAMPLE) by (nonlinear_arith)
            requires
                sum(s) == sum(s.drop_last()) + s.last(),
                sum(s.drop_last()) <= (s.len() - 1) * MAX_SAMPLE,
                s.last() <= MAX_SAMPLE,
        ;
    }
}

/// One squared deviation term is at most `(n * MAX_SAMPLE)^2`.
proof fn lemma_term_bound(x: int, total: int, n: int)
    requires
        0 <= x <= MAX_SAMPLE,
        0 <= total <= n * MAX_SAMPLE,
        n >= 0,
    ensures
        0 <= sq(n * x - total) <= sq(n * MAX_SAMPLE),
{
    assert(0 <= n * x <= n * MAX_SAMPLE) by (nonlinear_arith)
        requires
            0 <= x <= MAX_SAMPLE,
            n >= 0,
    ;
    let m = n * MAX_SAMPLE;
    let d = n * x - total;
    assert(-m <= d <= m);
    assert(0 <= d * d <= m * m) by (nonlinear_arith)
        requires
            -m <= d <= m,
    ;
}

proof fn lemma_spread_bound(s: Seq<u64>, total: int, n: int)
    requires
        forall|i: int| 0 <= i < s.len() ==> s[i] <= MAX_SAMPLE,
        0 <= total <= n * MAX_SAMPLE,
        n >= 0,
    ensures
        0 <= spread(s, total, n) <= s.len() * sq(n * MAX_SAMPLE),
    decreases s.len(),
{
    if s.len() > 0 {
        lemma_spread_bound(s.drop_last(), total, n);
        lemma_term_bound(s.last() as int, total, n);
        let b = sq(n * MAX_SAMPLE);
        assert(spread(s, total, n) <= s.len() * b) by (nonlinear_arith)
            requires
                spread(s, total, n) == spread(s.drop_last(), total, n) + sq(n * s.last() - total),
                spread(s.drop_last(), total, n) <= (s.len() - 1) * b,
                sq(n * s.last() - total) <= b,
        ;
    }
}

proof fn lemma_spread_limit()
    ensures
        MAX_SAMPLES * sq(MAX_SAMPLES * MAX_SAMPLE) < u128::MAX,
{
    let m: int = 1048576int * 4294967295int;
    assert(m == 4503599626321920);
    assert(m * m == 20282409594206937459307472486400) by (nonlinear_arith)
        requires
            m == 4503599626321920,
    ;
    assert(1048576 * (m * m) < 340282366920938463463374607431768211455) by (nonlinear_arith)
        requires
            m * m == 20282409594206937459307472486400,
    ;
}

/// The mean of the samples, as their sum over their number.
pub fn get_mean(samples: &Vec<u64>) -> (r: Fraction)
    requires
        valid_samples(samples@),
    ensures
        r.numer == sum(samples@),
        r.denom == samples@.len(),
{
    let n = samples.len();
    let mut total: u128 = 0;
    let mut i: usize = 0;
    while i < n
        invariant
            n == samples@.len(),
            valid_samples(samples@),
            i <= n,
            total == sum(samples@.subrange(0, i as int)),
        decreases n - i,
    {
        proof {
            lemma_sum_bound(samples@.subrange(0, i + 1));
            assert(samples@.subrange(0, i + 1).drop_last() =~= samples@.subrange(0, i as int));
            assert((i + 1) * MAX_SAMPLE <= MAX_SAMPLES * MAX_SAMPLE) by (nonlinear_arith)
                requires
                    i + 1 <= MAX_SAMPLES,
            ;
        }
        total = total + samples[i] as u128;
        i = i + 1;
    }
    assert(samples@.subrange(0, n as int) =~= samples@);
    Fraction { numer: total, denom: n as u128 }
}

/// Relies on std's `slice::sort_unstable`: the same values, in ascending
/// order.
#[verifier::external_body]
fn sort_ascending(v: &mut Vec<u64>)
    ensures
        final(v)@.to_multiset() == old(v)@.to_multiset(),
        sorted_by(final(v)@, ascending()),
{
    v.sort_unstable()
}

proof fn lemma_ascending_total()
    ensures
        total_ordering(ascending()),
{
}

proof fn lemma_sorted_members_bounded(s: Seq<u64>, t: Seq<u64>)
    requires
        valid_samples(s),
        t.to_multiset() == s.to_multiset(),
    ensures
        forall|k: int| 0 <= k < t.len() ==> t[k] <= MAX_SAMPLE,
{
    broadcast use vstd::seq_lib::group_to_multiset_ensures;

    assert forall|k: int| 0 <= k < t.len() implies t[k] <= MAX_SAMPLE by {
        assert(t.contains(t[k]));
        assert(t.to_multiset().contains(t[k]));
        assert(s.contains(t[k]));
    }
}

/// The median of the samples, as a fraction over 2: a sorted copy's middle
/// sample, or the mean of its two middle samples when their number is even.
pub fn get_median(samples: &Vec<u64>) -> (r: Fraction)
    requires
        valid_samples(samples@),
    ensures
        r.numer == median_doubled(samples@),
        r.numer <= 2 * MAX_SAMPLE,
        r.denom == 2,
{
    let n = samples.len();
    let mut t: Vec<u64> = Vec::with_capacity(n);
    let mut i: usize = 0;
    while i < n
        invariant
            n == samples@.len(),
            i <= n,
            t@ == samples@.subrange(0, i as int),
        decreases n - i,
    {
        t.push(samples[i]);
        i = i + 1;
        assert(t@ =~= samples@.subrange(0, i as int));
    }
    assert(t@ =~= samples@);
    sort_ascending(&mut t);
    proof {
        samples@.lemma_sort_by_ensures(ascending());
        lemma_ascending_total();
        lemma_sorted_unique(t@, sorted_samples(samples@), ascending());
        vstd::seq_lib::to_multiset_len(samples@);
        vstd::seq_lib::to_multiset_len(t@);
        lemma_sorted_members_bounded(samples@, t@);
    }
    if n % 2 == 0 {
        Fraction { numer: t[n / 2 - 1] as u128 + t[n / 2] as u128, denom: 2 }
    } else {
        Fraction { numer: 2 * (t[n / 2] as u128), denom: 2 }
    }
}

/// The sample variance (denominator `n - 1`) of the samples, given their
/// mean: the sum of `(n * x - sum)^2` over `n^2 (n - 1)`.
pub fn get_variance(samples: &Vec<u64>, mean: &Fraction) -> (r: Fraction)
    requires
        valid_samples(samples@),
        samples@.len() >= 2,
        mean.numer == sum(samples@),
        mean.denom == samples@.len(),
    ensures
        r.numer == spread(samples@, sum(samples@), samples@.len() as int),
        r.denom == samples@.len() * samples@.len() * (samples@.len() - 1),
{
    let n = samples.len();
    let total = mean.numer;
    let nn = n as u128;
    proof {
        lemma_sum_bound(samples@);
        assert(n * MAX_SAMPLE <= MAX_SAMPLES * MAX_SAMPLE) by (nonlinear_arith)
            requires
                n <= MAX_SAMPLES,
        ;
        assert(n * sq(n * MAX_SAMPLE) <= MAX_SAMPLES * sq(MAX_SAMPLES * MAX_SAMPLE))
            by (nonlinear_arith)
            requires
                0 <= n <= MAX_SAMPLES,
        ;
    }
    let mut acc: u128 = 0;
    let mut i: usize = 0;
    while i < n
        invariant
            n == samples@.len(),
            nn == n,
            valid_samples(samples@),
            total == sum(samples@),
            0 <= sum(samples@) <= n * MAX_SAMPLE,
            n * MAX_SAMPLE <= MAX_SAMPLES * MAX_SAMPLE,
            n * sq(n * MAX_SAMPLE) <= MAX_SAMPLES * sq(MAX_SAMPLES * MAX_SAMPLE),
            i <= n,
            acc == spread(samples@.subrange(0, i as int), total as int, n as int),
        decreases n - i,
    {
        let x = samples[i] as u128;
        proof {
            assert(nn * x <= n * MAX_SAMPLE) by (nonlinear_arith)
                requires
                    x <= MAX_SAMPLE,
                    nn == n,
            ;
            let s1 = samples@.subrange(0, i + 1);
            assert(s1.drop_last() =~= samples@.subrange(0, i as int));
            lemma_spread_bound(s1, total as int, n as int);
            assert(s1.len() * sq(n * MAX_SAMPLE) <= n * sq(n * MAX_SAMPLE)) by (nonlinear_arith)
                requires
                    s1.len() <= n,
            ;
        }
        let scaled = nn * x;
        let d = if scaled >= total {
            scaled - total
        } else {
            total - scaled
        };
        proof {
            assert(d * d == sq(nn * x - total)) by (nonlinear_arith)
                requires
                    d == nn * x - total || d == total - nn * x,
            ;
        }
        proof {
            let s1 = samples@.subrange(0, i + 1);
            lemma_term_bound(x as int, total as int, n as int);
            assert(s1.last() == x);
            assert(acc + d * d == spread(s1, total as int, n as int));
            lemma_spread_limit();
        }
        acc = acc + d * d;
        i = i + 1;
    }
    assert(samples@.subrange(0, n as int) =~= samples@);
    proof {
        assert(n * n * (n - 1) <= MAX_SAMPLES * MAX_SAMPLES * MAX_SAMPLES) by (nonlinear_arith)
            requires
                2 <= n <= MAX_SAMPLES,
        ;
        assert(n * n <= MAX_SAMPLES * MAX_SAMPLES) by (nonlinear_arith)
            requires
                0 <= n <= MAX_SAMPLES,
        ;
    }
    Fraction { numer: acc, denom: nn * nn * (nn - 1) }
}


/// `a / b < c / d`, decided without multiplying: the integer parts are
/// compared first, and on a tie the reciprocals of the remainders, as in
/// Euclid's algorithm.
fn frac_lt(a: u128, b: u128, c: u128, d: u128) -> (r: bool)
    requires
        b > 0,
        d > 0,
    ensures
        r == (a * d < c * b),
    decreases b + d,
{
    let q1 = a / b;
    let q2 = c / d;
    let r1 = a % b;
    let r2 = c % d;
    proof {
        lemma_frac_step(a as int, b as int, c as int, d as int);
    }
    if q1 != q2 {
        q1 < q2
    } else if r2 == 0 {
        proof {
            assert(0 <= r1 * d) by (nonlinear_arith)
                requires
                    r1 >= 0,
                    d > 0,
            ;
            assert(r2 * b == 0) by (nonlinear_arith)
                requires
                    r2 == 0,
            ;
            assert(!(a * d < c * b));
        }
        false
    } else if r1 == 0 {
        proof {
            assert(0 < r2 * b) by (nonlinear_arith)
                requires
                    r2 > 0,
                    b > 0,
            ;
            assert(r1 * d == 0) by (nonlinear_arith)
                requires
                    r1 == 0,
            ;
            assert(a * d < c * b);
        }
        true
    } else {
        proof {
            assert(r1 * d == d * r1 && r2 * b == b * r2) by (nonlinear_arith);
        }
        frac_lt(d, r2, b, r1)
    }
}

proof fn lemma_frac_step(a: int, b: int, c: int, d: int)
    requires
        a >= 0,
        b > 0,
        c >= 0,
        d > 0,
    ensures
        0 <= a % b < b,
        0 <= c % d < d,
        a / b < c / d ==> a * d < c * b,
        a / b > c / d ==> !(a * d < c * b),
        a / b == c / d ==> (a * d < c * b <==> (a % b) * d < (c % d) * b),
{
    lemma_fundamental_div_mod(a, b);
    lemma_fundamental_div_mod(c, d);
    lemma_mod_pos_bound(a, b);
    lemma_mod_pos_bound(c, d);
    let q1 = a / b;
    let q2 = c / d;
    let r1 = a % b;
    let r2 = c % d;
    assert(a * d == q1 * b * d + r1 * d) by (nonlinear_arith)
        requires
            a == b * q1 + r1,
    ;
    assert(c * b == q2 * b * d + r2 * b) by (nonlinear_arith)
        requires
            c == d * q2 + r2,
    ;
    if q1 < q2 {
        assert(q1 * b * d + r1 * d < q2 * b * d) by (nonlinear_arith)
            requires
                q1 + 1 <= q2,
                0 <= r1 < b,
                d > 0,
        ;
        assert(0 <= r2 * b) by (nonlinear_arith)
            requires
                r2 >= 0,
                b > 0,
        ;
    }
    if q1 > q2 {
        assert(q2 * b * d + r2 * b < q1 * b * d) by (nonlinear_arith)
            requires
                q2 + 1 <= q1,
                0 <= r2 < d,
                b > 0,
        ;
        assert(0 <= r1 * d) by (nonlinear_arith)
            requires
                r1 >= 0,
                d > 0,
        ;
    }
}


/// The mean, median and sample variance of a set of samples.
#[derive(Clone, Copy, Debug, PartialEq, Eq, Structural)]
pub struct SampleStats {
    pub count: usize,
    pub mean: Fraction,
    pub median: Fraction,
    pub variance: Fraction,
}

impl SampleStats {
    /// The shape that `describe` gives: the denominators it uses and the
    /// bounds that its numerators keep.
    pub open spec fn wf(self) -> bool {
        &&& 2 <= self.count <= MAX_SAMPLES
        &&& self.mean.denom == self.count
        &&& self.mean.numer <= self.count * MAX_SAMPLE
        &&& self.median.denom == 2
        &&& self.median.numer <= 2 * MAX_SAMPLE
        &&& self.variance.denom == self.count * self.count * (self.count - 1)
        &&& self.variance.numer <= self.count * sq(self.count * MAX_SAMPLE)
    }
}

/// The statistics of the samples `s`.
pub open spec fn stats_of(s: Seq<u64>) -> SampleStats {
    let n = s.len() as int;
    SampleStats {
        count: n as usize,
        mean: Fraction { numer: sum(s) as u128, denom: n as u128 },
        median: Fraction { numer: median_doubled(s) as u128, denom: 2 },
        variance: Fraction { numer: spread(s, sum(s), n) as u128, denom: (n * n * (n - 1)) as u128 },
    }
}

/// Mean, median and sample variance of at least two samples.
pub fn describe(samples: &Vec<u64>) -> (r: SampleStats)
    requires
        valid_samples(samples@),
        samples@.len() >= 2,
    ensures
        r == stats_of(samples@),
        r.wf(),
{
    let mean = get_mean(samples);
    let median = get_median(samples);
    let variance = get_variance(samples, &mean);
    proof {
        let n = samples@.len() as int;
        lemma_sum_bound(samples@);
        lemma_spread_bound(samples@, sum(samples@), n);
    }
    SampleStats { count: samples.len(), mean, median, variance }
}

/// Which of the five stability criteria a run passes.
#[derive(Clone, Copy, Debug, PartialEq, Eq, Structural)]
pub struct Criteria {
    /// The median lies within one standard deviation of the mean.
    pub median_near_mean: bool,
    /// The spread between the slowest and fastest speed is under a tenth of
    /// the fastest.
    pub narrow_range: bool,
    /// The coefficient of variation is under 1%.
    pub low_variation: bool,
    /// The final speed lies within one standard deviation of the mean.
    pub speed_within_sigma: bool,
    /// The final speed lies within the 99.9% confidence interval of the mean.
    pub speed_within_interval: bool,
}

/// `(median - mean)^2 < variance`, with every fraction cleared.
pub open spec fn median_near_mean_holds(st: SampleStats) -> bool {
    sq(st.median.numer * st.mean.denom - st.mean.numer * st.median.denom) * st.variance.denom
        < st.variance.numer * sq(st.median.denom * st.mean.denom)
}

/// `max - min < max / 10`.
pub open spec fn narrow_range_holds(minimum: int, maximum: int) -> bool {
    10 * (maximum - minimum) < maximum
}

/// `variance < (mean / 100)^2`, that is `stdev / mean < 1%` for a positive
/// mean; never with a mean of 0.
pub open spec fn low_variation_holds(st: SampleStats) -> bool {
    st.variance.numer * (sq(st.mean.denom as int) * 10000) < sq(st.mean.numer as int)
        * st.variance.denom
}

/// `(speed - mean)^2 < variance`.
pub open spec fn within_sigma_holds(st: SampleStats, speed: int) -> bool {
    sq(speed * st.mean.denom - st.mean.numer) * st.variance.denom < st.variance.numer * sq(
        st.mean.denom as int,
    )
}

/// `(speed - mean)^2 < t^2 * variance / count`, that is
/// `|speed - mean| < t * stdev / sqrt(count)`.
pub open spec fn within_interval_holds(st: SampleStats, speed: int) -> bool {
    sq(speed * st.mean.denom - st.mean.numer) * (T_SQUARED_DENOM * st.variance.denom * st.count)
        < st.variance.numer * (T_SQUARED_NUMER * sq(st.mean.denom as int))
}

pub open spec fn criteria_of(st: SampleStats, minimum: int, maximum: int, speed: int) -> Criteria {
    Criteria {
        median_near_mean: median_near_mean_holds(st),
        narrow_range: narrow_range_holds(minimum, maximum),
        low_variation: low_variation_holds(st),
        speed_within_sigma: within_sigma_holds(st, speed),
        speed_within_interval: within_interval_holds(st, speed),
    }
}

proof fn lemma_mul_bound(x: int, y: int, bx: int, by: int)
    requires
        0 <= x <= bx,
        0 <= y <= by,
    ensures
        0 <= x * y <= bx * by,
{
    assert(0 <= x * y <= bx * by) by (nonlinear_arith)
        requires
            0 <= x <= bx,
            0 <= y <= by,
    ;
}

proof fn lemma_product_limits()
    ensures
        sq(2 * MAX_SAMPLES * MAX_SAMPLE) < u128::MAX,
        sq(MAX_SAMPLES * MAX_SAMPLE) < u128::MAX,
        T_SQUARED_DENOM * (MAX_SAMPLES * MAX_SAMPLES * MAX_SAMPLES) * MAX_SAMPLES < u128::MAX,
        T_SQUARED_NUMER * sq(MAX_SAMPLES as int) < u128::MAX,
        sq(MAX_SAMPLES as int) * 10000 < u128::MAX,
        sq(2 * MAX_SAMPLES) < u128::MAX,
{
    let k: int = 2097152;
    assert(k * k == 4398046511104) by (nonlinear_arith)
        requires
            k == 2097152,
    ;
    let m: int = 1048576int * 4294967295int;
    assert(m == 4503599626321920);
    assert(sq(2 * m) == 81129638376827749837229889945600) by (nonlinear_arith)
        requires
            m == 4503599626321920,
    ;
    assert(sq(m) == 20282409594206937459307472486400) by (nonlinear_arith)
        requires
            m == 4503599626321920,
    ;
}

proof fn lemma_wf_bounds(st: SampleStats)
    requires
        st.wf(),
    ensures
        st.mean.numer <= MAX_SAMPLES * MAX_SAMPLE,
        st.variance.denom > 0,
{
    lemma_mul_bound(st.count as int, MAX_SAMPLE as int, MAX_SAMPLES as int, MAX_SAMPLE as int);
    assert(st.variance.denom > 0) by (nonlinear_arith)
        requires
            st.variance.denom == st.count * st.count * (st.count - 1),
            st.count >= 2,
    ;
}

/// |difference| of two non-negative numbers.
fn abs_diff(x: u128, y: u128) -> (r: u128)
    ensures
        r == x - y || r == y - x,
        r >= 0,
{
    if x >= y {
        x - y
    } else {
        y - x
    }
}

/// Whether the median lies within one standard deviation of the mean.
pub fn median_near_mean(st: &SampleStats) -> (r: bool)
    requires
        st.wf(),
    ensures
        r == median_near_mean_holds(*st),
{
    let m = st.mean;
    let h = st.median;
    let v = st.variance;
    proof {
        lemma_product_limits();
        lemma_mul_bound(h.numer as int, m.denom as int, 2 * MAX_SAMPLE, MAX_SAMPLES as int);
        lemma_mul_bound(
            m.numer as int,
            h.denom as int,
            MAX_SAMPLES * MAX_SAMPLE,
            2,
        );
        lemma_wf_bounds(*st);
    }
    let e = abs_diff(h.numer * m.denom, m.numer * h.denom);
    proof {
        lemma_mul_bound(e as int, e as int, 2 * MAX_SAMPLES * MAX_SAMPLE, 2 * MAX_SAMPLES * MAX_SAMPLE);
        assert(e * e == sq(h.numer * m.denom - m.numer * h.denom)) by (nonlinear_arith)
            requires
                e == h.numer * m.denom - m.numer * h.denom || e == m.numer * h.denom - h.numer * m.denom,
        ;
    }
    let hm = h.denom * m.denom;
    proof {
        assert(hm * hm > 0 && hm * hm <= sq(2 * MAX_SAMPLES)) by (nonlinear_arith)
            requires
                hm == 2 * m.denom,
                2 <= m.denom <= MAX_SAMPLES,
        ;
    }
    frac_lt(e * e, hm * hm, v.numer, v.denom)
}

/// Whether the spread between the slowest and the fastest speed is under a
/// tenth of the fastest.
pub fn narrow_range(minimum: u64, maximum: u64) -> (r: bool)
    ensures
        r == narrow_range_holds(minimum as int, maximum as int),
{
    if minimum > maximum {
        true
    } else {
        10 * ((maximum - minimum) as u128) < maximum as u128
    }
}

/// Whether the coefficient of variation (standard deviation over mean) is
/// under 1%.
pub fn low_variation(st: &SampleStats) -> (r: bool)
    requires
        st.wf(),
    ensures
        r == low_variation_holds(*st),
{
    let m = st.mean;
    let v = st.variance;
    proof {
        lemma_product_limits();
        lemma_mul_bound(m.numer as int, m.numer as int, MAX_SAMPLES * MAX_SAMPLE, MAX_SAMPLES * MAX_SAMPLE);
        lemma_mul_bound(m.denom as int, m.denom as int, MAX_SAMPLES as int, MAX_SAMPLES as int);
        lemma_mul_bound(sq(m.denom as int), 10000, sq(MAX_SAMPLES as int), 10000);
        lemma_wf_bounds(*st);
    }
    proof {
        assert(m.denom * m.denom * 10000 > 0) by (nonlinear_arith)
            requires
                m.denom >= 2,
        ;
    }
    frac_lt(v.numer, v.denom, m.numer * m.numer, m.denom * m.denom * 10000)
}

/// The square of the coefficient of variation (standard deviation over
/// mean), `variance / mean^2`, as a fraction: for these statistics it is
/// `variance.numer / ((count - 1) * sum^2)`. None when the mean is 0.
pub fn get_coefficient_of_variation(st: &SampleStats) -> (r: Option<Fraction>)
    requires
        st.wf(),
    ensures
        r is None <==> st.mean.numer == 0,
        r is Some ==> r->Some_0.numer == st.variance.numer && r->Some_0.denom == (st.count - 1)
            * sq(st.mean.numer as int),
        r is Some ==> r->Some_0.numer * (st.variance.denom * sq(st.mean.numer as int))
            == st.variance.numer * (sq(st.mean.denom as int) * r->Some_0.denom),
{
    let m = st.mean;
    let v = st.variance;
    if m.numer == 0 {
        return None;
    }
    proof {
        lemma_product_limits();
        lemma_wf_bounds(*st);
        lemma_mul_bound(m.numer as int, m.numer as int, MAX_SAMPLES * MAX_SAMPLE, MAX_SAMPLES * MAX_SAMPLE);
        lemma_mul_bound(
            (st.count - 1) as int,
            sq(m.numer as int),
            MAX_SAMPLES as int,
            sq(MAX_SAMPLES * MAX_SAMPLE),
        );
        lemma_spread_limit();
        assert(MAX_SAMPLES * sq(MAX_SAMPLES * MAX_SAMPLE) <= u128::MAX);
    }
    let denom = ((st.count - 1) as u128) * (m.numer * m.numer);
    proof {
        let n = st.count as int;
        let q = sq(m.numer as int);
        assert(v.numer * (v.denom * q) == v.numer * (sq(m.denom as int) * denom)) by (nonlinear_arith)
            requires
                v.denom == n * n * (n - 1),
                m.denom == n,
                denom == (n - 1) * q,
        ;
    }
    Some(Fraction { numer: v.numer, denom })
}

/// `|speed * count - sum|` and its square.
fn speed_offset(st: &SampleStats, speed: u64) -> (r: u128)
    requires
        st.wf(),
        speed <= MAX_SAMPLE,
    ensures
        r == sq(speed * st.mean.denom - st.mean.numer),
        r <= sq(MAX_SAMPLES * MAX_SAMPLE),
{
    let m = st.mean;
    proof {
        lemma_product_limits();
        lemma_mul_bound(speed as int, m.denom as int, MAX_SAMPLE as int, MAX_SAMPLES as int);
    }
    let e = abs_diff(speed as u128 * m.denom, m.numer);
    proof {
        assert(e <= MAX_SAMPLES * MAX_SAMPLE);
        lemma_mul_bound(e as int, e as int, MAX_SAMPLES * MAX_SAMPLE, MAX_SAMPLES * MAX_SAMPLE);
        assert(e * e == sq(speed * m.denom - m.numer)) by (nonlinear_arith)
            requires
                e == speed * m.denom - m.numer || e == m.numer - speed * m.denom,
        ;
    }
    e * e
}

/// Whether the final speed lies within one standard deviation of the mean.
pub fn speed_within_sigma(st: &SampleStats, speed: u64) -> (r: bool)
    requires
        st.wf(),
        speed <= MAX_SAMPLE,
    ensures
        r == within_sigma_holds(*st, speed as int),
{
    let x = speed_offset(st, speed);
    let m = st.mean;
    let v = st.variance;
    proof {
        lemma_product_limits();
        lemma_mul_bound(m.denom as int, m.denom as int, MAX_SAMPLES as int, MAX_SAMPLES as int);
        lemma_wf_bounds(*st);
    }
    frac_lt(x, m.denom * m.denom, v.numer, v.denom)
}

/// Whether the final speed lies within the 99.9% confidence interval
/// `mean +- t * stdev / sqrt(count)`.
pub fn speed_within_interval(st: &SampleStats, speed: u64) -> (r: bool)
    requires
        st.wf(),
        speed <= MAX_SAMPLE,
    ensures
        r == within_interval_holds(*st, speed as int),
{
    let x = speed_offset(st, speed);
    let m = st.mean;
    let v = st.variance;
    proof {
        lemma_product_limits();
        let n = st.count as int;
        lemma_mul_bound(m.denom as int, m.denom as int, MAX_SAMPLES as int, MAX_SAMPLES as int);
        lemma_mul_bound(T_SQUARED_NUMER as int, sq(m.denom as int), T_SQUARED_NUMER as int, sq(MAX_SAMPLES as int));
        lemma_mul_bound(n, n, MAX_SAMPLES as int, MAX_SAMPLES as int);
        lemma_mul_bound(n * n, n - 1, MAX_SAMPLES * MAX_SAMPLES, MAX_SAMPLES as int);
        lemma_mul_bound(T_SQUARED_DENOM as int, v.denom as int, T_SQUARED_DENOM as int, MAX_SAMPLES * MAX_SAMPLES * MAX_SAMPLES);
        lemma_mul_bound(T_SQUARED_DENOM * v.denom, n, T_SQUARED_DENOM * (MAX_SAMPLES * MAX_SAMPLES * MAX_SAMPLES), MAX_SAMPLES as int);
        assert(v.denom > 0) by (nonlinear_arith)
            requires
                v.denom == n * n * (n - 1),
                n >= 2,
        ;
        assert(T_SQUARED_NUMER * (m.denom * m.denom) > 0) by (nonlinear_arith)
            requires
                m.denom >= 2,
        ;
        assert(T_SQUARED_DENOM * v.denom * n > 0) by (nonlinear_arith)
            requires
                v.denom > 0,
                n >= 2,
        ;
    }
    frac_lt(
        x,
        T_SQUARED_NUMER * (m.denom * m.denom),
        v.numer,
        T_SQUARED_DENOM * v.denom * (st.count as u128),
    )
}

/// Evaluates the five stability criteria.
pub fn rank_criteria(st: &SampleStats, minimum: u64, maximum: u64, speed: u64) -> (r: Criteria)
    requires
        st.wf(),
        speed <= MAX_SAMPLE,
    ensures
        r == criteria_of(*st, minimum as int, maximum as int, speed as int),
{
    Criteria {
        median_near_mean: median_near_mean(st),
        narrow_range: narrow_range(minimum, maximum),
        low_variation: low_variation(st),
        speed_within_sigma: speed_within_sigma(st, speed),
        speed_within_interval: speed_within_interval(st, speed),
    }
}


/// The number of criteria passed.
pub open spec fn passes(c: Criteria) -> int {
    (if c.median_near_mean {
        1int
    } else {
        0int
    }) + (if c.narrow_range {
        1int
    } else {
        0int
    }) + (if c.low_variation {
        1int
    } else {
        0int
    }) + (if c.speed_within_sigma {
        1int
    } else {
        0int
    }) + (if c.speed_within_interval {
        1int
    } else {
        0int
    })
}

/// The letter grade of a number of passed criteria.
pub open spec fn grade(p: int) -> Seq<char> {
    if p >= 5 {
        seq!['A', '+']
    } else if p == 4 {
        seq!['A']
    } else if p == 3 {
        seq!['B']
    } else if p == 2 {
        seq!['C']
    } else if p == 1 {
        seq!['D']
    } else {
        seq!['F']
    }
}

/// `acc` with `label` added when `passed`, after a `" | "` when `acc` is
/// not empty.
pub open spec fn add_label(acc: Seq<char>, passed: bool, label: char) -> Seq<char> {
    if !passed {
        acc
    } else if acc.len() == 0 {
        seq![label]
    } else {
        acc + seq![' ', '|', ' ', label]
    }
}

/// The numbers of the passed criteria, in order, joined by `" | "`; `none`
/// when there is none.
pub open spec fn reason(c: Criteria) -> Seq<char> {
    let t = add_label(
        add_label(
            add_label(
                add_label(add_label(Seq::empty(), c.median_near_mean, '1'), c.narrow_range, '2'),
                c.low_variation,
                '3',
            ),
            c.speed_within_sigma,
            '4',
        ),
        c.speed_within_interval,
        '5',
    );
    if t.len() == 0 {
        seq!['n', 'o', 'n', 'e']
    } else {
        t
    }
}

/// How many of the five criteria passed.
pub fn rank_passes(criteria: &Criteria) -> (r: usize)
    ensures
        r == passes(*criteria),
        r <= 5,
{
    let mut n: usize = 0;
    if criteria.median_near_mean {
        n = n + 1;
    }
    if criteria.narrow_range {
        n = n + 1;
    }
    if criteria.low_variation {
        n = n + 1;
    }
    if criteria.speed_within_sigma {
        n = n + 1;
    }
    if criteria.speed_within_interval {
        n = n + 1;
    }
    n
}

/// The letter grade: `A+` for five passed criteria, then `A`, `B`, `C`, `D`,
/// and `F` for none.
pub fn rank_letter(criteria: &Criteria) -> (r: String)
    ensures
        r@ == grade(passes(*criteria)),
{
    let n = rank_passes(criteria);
    let letter = match n {
        5 => "A+",
        4 => "A",
        3 => "B",
        2 => "C",
        1 => "D",
        _ => "F",
    };
    proof {
        reveal_strlit("A+");
        reveal_strlit("A");
        reveal_strlit("B");
        reveal_strlit("C");
        reveal_strlit("D");
        reveal_strlit("F");
    }
    let r = String::from_str(letter);
    assert(r@ =~= grade(n as int));
    r
}

/// Adds `label` to `out` as `add_label` says; `nonempty` tells whether `out`
/// holds anything, and the result whether it does afterwards.
fn append_label(out: &mut String, nonempty: bool, passed: bool, label: &str) -> (r: bool)
    requires
        label@.len() == 1,
        nonempty == (old(out)@.len() > 0),
    ensures
        final(out)@ == add_label(old(out)@, passed, label@[0]),
        r == (final(out)@.len() > 0),
{
    if passed {
        if nonempty {
            proof {
                reveal_strlit(" | ");
            }
            out.append(" | ");
        }
        out.append(label);
        assert(out@ =~= add_label(old(out)@, passed, label@[0]));
        true
    } else {
        nonempty
    }
}

/// The numbers of the passed criteria in ascending order, joined by
/// `" | "`, or `none`.
pub fn rank_reason(criteria: &Criteria) -> (r: String)
    ensures
        r@ == reason(*criteria),
{
    proof {
        reveal_strlit("1");
        reveal_strlit("2");
        reveal_strlit("3");
        reveal_strlit("4");
        reveal_strlit("5");
        reveal_strlit("none");
    }
    let mut out = String::new();
    let mut nonempty = append_label(&mut out, false, criteria.median_near_mean, "1");
    nonempty = append_label(&mut out, nonempty, criteria.narrow_range, "2");
    nonempty = append_label(&mut out, nonempty, criteria.low_variation, "3");
    nonempty = append_label(&mut out, nonempty, criteria.speed_within_sigma, "4");
    nonempty = append_label(&mut out, nonempty, criteria.speed_within_interval, "5");
    if nonempty {
        out
    } else {
        let r = String::from_str("none");
        assert(r@ =~= seq!['n', 'o', 'n', 'e']);
        r
    }
}

/// The statistics of a run and the criteria it passes.
#[derive(Clone, Copy, Debug, PartialEq, Eq, Structural)]
pub struct Summary {
    pub stats: SampleStats,
    pub criteria: Criteria,
}

/// What `summarize` gives for samples `s`, the slowest and fastest speeds
/// seen, and the final speed.
pub open spec fn summary_of(s: Seq<u64>, minimum: u64, maximum: u64, speed: u64) -> Result<
    Summary,
    StatError,
> {
    if s.len() < 2 {
        Err(StatError::InsufficientData)
    } else if s.len() > MAX_SAMPLES {
        Err(StatError::TooManySamples)
    } else if speed > MAX_SAMPLE || exists|i: int| 0 <= i < s.len() && s[i] > MAX_SAMPLE {
        Err(StatError::ValueTooLarge)
    } else {
        Ok(
            Summary {
                stats: stats_of(s),
                criteria: criteria_of(stats_of(s), minimum as int, maximum as int, speed as int),
            },
        )
    }
}

/// Summarises the samples of a run and grades it, given the slowest and the
/// fastest speed seen and the final speed.
pub fn summarize(samples: &Vec<u64>, minimum: u64, maximum: u64, speed: u64) -> (r: Result<
    Summary,
    StatError,
>)
    ensures
        r == summary_of(samples@, minimum, maximum, speed),
        r is Ok ==> r->Ok_0.stats.wf(),
{
    let n = samples.len();
    if n < 2 {
        return Err(StatError::InsufficientData);
    }
    if n > MAX_SAMPLES {
        return Err(StatError::TooManySamples);
    }
    if speed > MAX_SAMPLE {
        return Err(StatError::ValueTooLarge);
    }
    let mut i: usize = 0;
    while i < n
        invariant
            n == samples@.len(),
            2 <= n <= MAX_SAMPLES,
            speed <= MAX_SAMPLE,
            i <= n,
            forall|k: int| 0 <= k < i ==> samples@[k] <= MAX_SAMPLE,
        decreases n - i,
    {
        if samples[i] > MAX_SAMPLE {
            assert(samples@[i as int] > MAX_SAMPLE);
            return Err(StatError::ValueTooLarge);
        }
        i = i + 1;
    }
    let stats = describe(samples);
    let criteria = rank_criteria(&stats, minimum, maximum, speed);
    Ok(Summary { stats, criteria })
}

/// For any number of samples that all equal `v`: the mean and the median
/// are `v`, and the variance is 0, so the standard deviation and the
/// coefficient of variation are 0 too.
pub proof fn lemma_constant_samples(s: Seq<u64>, v: u64)
    requires
        s.len() >= 1,
        forall|i: int| 0 <= i < s.len() ==> s[i] == v,
    ensures
        sum(s) == s.len() * v,
        median_doubled(s) == 2 * v,
        spread(s, sum(s), s.len() as int) == 0,
{
    lemma_constant_sum(s, v);
    lemma_constant_spread(s, v, s.len() as int);
    broadcast use vstd::seq_lib::group_to_multiset_ensures;

    let t = sorted_samples(s);
    s.lemma_sort_by_ensures(ascending());
    vstd::seq_lib::to_multiset_len(s);
    vstd::seq_lib::to_multiset_len(t);
    assert forall|k: int| 0 <= k < t.len() implies t[k] == v by {
        assert(t.contains(t[k]));
        assert(t.to_multiset().contains(t[k]));
        assert(s.contains(t[k]));
    }
}

proof fn lemma_constant_sum(s: Seq<u64>, v: u64)
    requires
        forall|i: int| 0 <= i < s.len() ==> s[i] == v,
    ensures
        sum(s) == s.len() * v,
    decreases s.len(),
{
    if s.len() > 0 {
        lemma_constant_sum(s.drop_last(), v);
        assert(sum(s) == s.len() * v) by (nonlinear_arith)
            requires
                sum(s) == sum(s.drop_last()) + v,
                sum(s.drop_last()) == (s.len() - 1) * v,
        ;
    }
}

proof fn lemma_constant_spread(s: Seq<u64>, v: u64, n: int)
    requires
        forall|i: int| 0 <= i < s.len() ==> s[i] == v,
    ensures
        spread(s, n * v, n) == 0,
    decreases s.len(),
{
    if s.len() > 0 {
        lemma_constant_spread(s.drop_last(), v, n);
        assert(s.last() == v);
        assert(sq(n * s.last() - n * v) == 0);
    }
}

/// A run whose coefficient of variation is under 1% passes the third
/// criterion, and so passes at least one and grades `D` or better.
pub proof fn lemma_low_variation_grades(st: SampleStats, minimum: u64, maximum: u64, speed: u64)
    requires
        low_variation_holds(st),
    ensures
        criteria_of(st, minimum as int, maximum as int, speed as int).low_variation,
        passes(criteria_of(st, minimum as int, maximum as int, speed as int)) >= 1,
        grade(passes(criteria_of(st, minimum as int, maximum as int, speed as int))) != seq!['F'],
{
    let p = passes(criteria_of(st, minimum as int, maximum as int, speed as int));
    assert(grade(p).len() != 1 || grade(p)[0] != 'F');
}

} // verus!

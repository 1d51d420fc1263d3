//! Running summary statistics over a stream of latency samples.

use vstd::prelude::*;

verus! {

/// Sum of the samples in `s`.
pub open spec fn sum_of(s: Seq<i64>) -> int
    decreases s.len(),
{
    if s.len() == 0 {
        0
    } else {
        sum_of(s.drop_last()) + s.last()
    }
}

/// Sum of the squares of the samples in `s`.
pub open spec fn sum_sq_of(s: Seq<i64>) -> int
    decreases s.len(),
{
    if s.len() == 0 {
        0
    } else {
        sum_sq_of(s.drop_last()) + s.last() * s.last()
    }
}

/// Smallest sample in `s`; `i64::MAX` when there is none.
pub open spec fn min_of(s: Seq<i64>) -> int
    decreases s.len(),
{
    if s.len() == 0 {
        i64::MAX as int
    } else if s.last() < min_of(s.drop_last()) {
        s.last() as int
    } else {
        min_of(s.drop_last())
    }
}

/// Largest sample in `s`; `i64::MIN` when there is none.
pub open spec fn max_of(s: Seq<i64>) -> int
    decreases s.len(),
{
    if s.len() == 0 {
        i64::MIN as int
    } else if s.last() > max_of(s.drop_last()) {
        s.last() as int
    } else {
        max_of(s.drop_last())
    }
}

/// Number of samples after which a summary is reported and started anew.
pub const REPORT_EVERY: i64 = 50000;

/// `a / b` rounded towards zero, for `b` above zero.
pub open spec fn div_towards_zero(a: int, b: int) -> int
    recommends
        b > 0,
{
    if a >= 0 {
        a / b
    } else {
        -((-a) / b)
    }
}

/// Count, sum, sum of squares, minimum and maximum of the samples seen so far.
pub struct OnlineStats {
    sum: i64,
    sum_sq: i64,
    pub count: i64,
    min: i64,
    max: i64,
}

/// The five numbers an `OnlineStats` holds, as mathematical integers.
pub struct Summary {
    pub count: int,
    pub sum: int,
    pub sum_sq: int,
    pub min: int,
    pub max: int,
}

impl Summary {
    /// The summary of no samples at all.
    pub open spec fn empty() -> Summary {
        Summary { count: 0, sum: 0, sum_sq: 0, min: i64::MAX as int, max: i64::MIN as int }
    }

    /// The summary after one more sample `x`.
    pub open spec fn with(self, x: int) -> Summary {
        Summary {
            count: self.count + 1,
            sum: self.sum + x,
            sum_sq: self.sum_sq + x * x,
            min: if x < self.min { x } else { self.min },
            max: if x > self.max { x } else { self.max },
        }
    }

    /// The summary of exactly the samples in `s`.
    pub open spec fn of(s: Seq<i64>) -> Summary {
        Summary {
            count: s.len() as int,
            sum: sum_of(s),
            sum_sq: sum_sq_of(s),
            min: min_of(s),
            max: max_of(s),
        }
    }

    /// The sample `x` can be added without leaving the range of `i64`: its
    /// square fits, and so does every field of the summary that results.
    pub open spec fn admits(self, x: int) -> bool {
        &&& x * x <= i64::MAX
        &&& self.with(x).fits()
    }

    /// The mean of the samples, rounded towards zero.
    pub open spec fn mean(self) -> int
        recommends
            self.count > 0,
    {
        div_towards_zero(self.sum, self.count)
    }

    /// The mean of the squares less the square of the mean, each mean
    /// rounded towards zero.
    pub open spec fn variance(self) -> int
        recommends
            self.count > 0,
    {
        div_towards_zero(self.sum_sq, self.count) - self.mean() * self.mean()
    }

    /// Every field fits the machine integer that stores it.
    pub open spec fn fits(self) -> bool {
        &&& i64::MIN <= self.count <= i64::MAX
        &&& i64::MIN <= self.sum <= i64::MAX
        &&& i64::MIN <= self.sum_sq <= i64::MAX
        &&& i64::MIN <= self.min <= i64::MAX
        &&& i64::MIN <= self.max <= i64::MAX
    }
}

impl Summary {
    /// The summary of no samples is the empty summary.
    pub proof fn lemma_of_empty()
        ensures
            Summary::of(Seq::<i64>::empty()) == Summary::empty(),
    {
    }

    /// Adding a sample to the summary of `s` gives the summary of `s`
    /// followed by that sample.
    pub proof fn lemma_of_push(s: Seq<i64>, x: i64)
        ensures
            Summary::of(s).with(x as int) == Summary::of(s.push(x)),
    {
        assert(s.push(x).drop_last() =~= s);
    }

    /// The minimum of the samples is the least of them and the maximum the
    /// greatest: each bounds every sample and, where there is a sample, is
    /// one of them.
    pub proof fn lemma_extremes(s: Seq<i64>)
        ensures
            forall|i: int| 0 <= i < s.len() ==> min_of(s) <= #[trigger] s[i] <= max_of(s),
            s.len() > 0 ==> exists|i: int| 0 <= i < s.len() && #[trigger] s[i] == min_of(s),
            s.len() > 0 ==> exists|i: int| 0 <= i < s.len() && #[trigger] s[i] == max_of(s),
        decreases s.len(),
    {
        if s.len() > 0 {
            let front = s.drop_last();
            Summary::lemma_extremes(front);
            let last = s.len() - 1;
            assert forall|i: int| 0 <= i < s.len() implies min_of(s) <= #[trigger] s[i] <= max_of(
                s,
            ) by {
                if i < last {
                    assert(front[i] == s[i]);
                }
            }
            if front.len() > 0 {
                let lo = choose|i: int| 0 <= i < front.len() && #[trigger] front[i] == min_of(front);
                let hi = choose|i: int| 0 <= i < front.len() && #[trigger] front[i] == max_of(front);
                assert(s[lo] == front[lo] && s[hi] == front[hi]);
                assert(s[last] == s.last());
            } else {
                assert(s[last] == s.last());
            }
        }
    }
}

impl View for OnlineStats {
    type V = Summary;

    closed spec fn view(&self) -> Summary {
        Summary {
            count: self.count as int,
            sum: self.sum as int,
            sum_sq: self.sum_sq as int,
            min: self.min as int,
            max: self.max as int,
        }
    }
}

impl OnlineStats {
    /// A summary of no samples.
    pub fn new() -> (stats: OnlineStats)
        ensures
            stats@ == Summary::empty(),
    {
        OnlineStats { sum: 0, sum_sq: 0, count: 0, min: i64::MAX, max: i64::MIN }
    }

    /// Forgets every sample.
    pub fn reset(&mut self)
        ensures
            final(self)@ == Summary::empty(),
    {
        self.sum = 0;
        self.sum_sq = 0;
        self.count = 0;
        self.min = i64::MAX;
        self.max = i64::MIN;
    }

    /// Whether `record(x)` can be called: the square of `x` and the updated
    /// count, sum and sum of squares all fit in an `i64`.
    pub fn can_record(&self, x: i64) -> (ok: bool)
        ensures
            ok == self@.admits(x as int),
    {
        assert(x * x >= 0) by (nonlinear_arith);
        let sq = match x.checked_mul(x) {
            Some(sq) => sq,
            None => {
                return false;
            },
        };
        self.count.checked_add(1).is_some() && self.sum.checked_add(x).is_some()
            && self.sum_sq.checked_add(sq).is_some()
    }

    /// Adds the sample `x`.
    pub fn record(&mut self, x: i64)
        requires
            old(self)@.admits(x as int),
        ensures
            final(self)@ == old(self)@.with(x as int),
    {
        assert(x * x >= 0) by (nonlinear_arith);
        self.count += 1;
        self.sum += x;
        self.sum_sq += x * x;
        self.min = if x < self.min { x } else { self.min };
        self.max = if x > self.max { x } else { self.max };
    }

    /// Sum of the samples.
    pub fn sum(&self) -> (sum: i64)
        ensures
            sum == self@.sum,
    {
        self.sum
    }

    /// Sum of the squares of the samples.
    pub fn sum_sq(&self) -> (sum_sq: i64)
        ensures
            sum_sq == self@.sum_sq,
    {
        self.sum_sq
    }

    /// Smallest sample, or `i64::MAX` where there is none.
    pub fn min(&self) -> (min: i64)
        ensures
            min == self@.min,
    {
        self.min
    }

    /// Largest sample, or `i64::MIN` where there is none.
    pub fn max(&self) -> (max: i64)
        ensures
            max == self@.max,
    {
        self.max
    }

    /// Whether enough samples are in for the summary to be reported.
    pub fn report_due(&self) -> (due: bool)
        ensures
            due == (self@.count > REPORT_EVERY),
    {
        self.count > REPORT_EVERY
    }

    /// The mean of the samples, rounded towards zero; `None` where the
    /// count is not above zero.
    pub fn mean(&self) -> (mean: Option<i64>)
        ensures
            mean is Some <==> self@.count > 0,
            mean matches Some(m) ==> m == self@.mean(),
    {
        if self.count <= 0 {
            return None;
        }
        Some(self.sum / self.count)
    }

    /// The variance of the samples as `Summary::variance` defines it;
    /// `None` where the count is not above zero or the result does not fit.
    pub fn variance(&self) -> (variance: Option<i64>)
        ensures
            variance is Some <==> self@.count > 0 && i64::MIN <= self@.mean() * self@.mean()
                <= i64::MAX && i64::MIN <= self@.variance() <= i64::MAX,
            variance matches Some(v) ==> v == self@.variance(),
    {
        let mean = match self.mean() {
            Some(mean) => mean,
            None => {
                return None;
            },
        };
        let mean_sq = match mean.checked_mul(mean) {
            Some(sq) => sq,
            None => {
                return None;
            },
        };
        (self.sum_sq / self.count).checked_sub(mean_sq)
    }
}

} // verus!

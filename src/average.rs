use vstd::prelude::*;

verus! {

/// Sum of a sequence of samples.
pub open spec fn sum_of(s: Seq<u64>) -> int
    decreases s.len(),
{
    if s.len() == 0 {
        0
    } else {
        sum_of(s.drop_last()) + s.last()
    }
}

/// Arithmetic mean of the samples, rounded down; zero for no samples.
pub open spec fn mean_of(s: Seq<u64>) -> int {
    if s.len() == 0 {
        0
    } else {
        sum_of(s) / (s.len() as int)
    }
}

/// A sum of `n` samples lies between zero and `n` times the largest sample.
pub proof fn lemma_sum_bounds(s: Seq<u64>)
    ensures
        0 <= sum_of(s) <= s.len() * (u64::MAX as int),
    decreases s.len(),
{
    if s.len() > 0 {
        lemma_sum_bounds(s.drop_last());
        assert(sum_of(s.drop_last()) + s.last() <= (s.len() - 1) * (u64::MAX as int) + u64::MAX)
            by (nonlinear_arith)
            requires
                sum_of(s.drop_last()) <= (s.len() - 1) * (u64::MAX as int),
                s.last() <= u64::MAX,
        ;
        assert((s.len() - 1) * (u64::MAX as int) + u64::MAX == s.len() * (u64::MAX as int))
            by (nonlinear_arith);
    }
}

/// Online mean of a stream of samples in fixed point.
///
/// It keeps the exact total next to the count, so the mean it reports is
/// the true mean of every value added so far (rounded down to the unit of
/// the samples), however long the stream: no error builds up from step to
/// step.
pub struct RunningAverage {
    count: u64,
    total: u128,
    samples: Ghost<Seq<u64>>,
}

impl View for RunningAverage {
    type V = Seq<u64>;

    /// The samples added so far, in order.
    closed spec fn view(&self) -> Seq<u64> {
        self.samples@
    }
}

impl RunningAverage {
    /// The count and total agree with the samples.
    pub closed spec fn wf(&self) -> bool {
        &&& self.count as int == self.samples@.len()
        &&& self.total as int == sum_of(self.samples@)
    }

    /// An average with no samples yet.
    pub fn new() -> (r: RunningAverage)
        ensures
            r.wf(),
            r@ == Seq::<u64>::empty(),
    {
        RunningAverage { count: 0, total: 0, samples: Ghost(Seq::empty()) }
    }

    /// Folds one sample in and returns the new mean.
    pub fn add(&mut self, value: u64) -> (r: u64)
        requires
            old(self).wf(),
            old(self)@.len() < u64::MAX,
        ensures
            final(self).wf(),
            final(self)@ == old(self)@.push(value),
            r as int == mean_of(final(self)@),
    {
        let ghost s = self.samples@.push(value);
        proof {
            assert(s.drop_last() =~= self.samples@);
            lemma_sum_bounds(s);
            assert(s.len() * (u64::MAX as int) <= (u64::MAX as int) * (u64::MAX as int))
                by (nonlinear_arith)
                requires
                    s.len() <= u64::MAX,
            ;
        }
        self.count = self.count + 1;
        self.total = self.total + value as u128;
        self.samples = Ghost(s);
        self.average()
    }

    /// The mean of the samples added so far; zero before the first.
    pub fn average(&self) -> (r: u64)
        requires
            self.wf(),
        ensures
            r as int == mean_of(self@),
    {
        if self.count == 0 {
            0
        } else {
            proof {
                lemma_sum_bounds(self.samples@);
                assert(sum_of(self.samples@) / (self.samples@.len() as int) <= u64::MAX)
                    by (nonlinear_arith)
                    requires
                        0 <= sum_of(self.samples@) <= self.samples@.len() * (u64::MAX as int),
                        self.samples@.len() > 0,
                ;
            }
            (self.total / (self.count as u128)) as u64
        }
    }

    /// How many samples were added.
    pub fn count(&self) -> (r: u64)
        requires
            self.wf(),
        ensures
            r as int == self@.len(),
    {
        self.count
    }
}

/// The reported mean is the arithmetic mean of the values added, to the
/// unit below: it times the count never exceeds their sum, and the next
/// unit up times the count does. With no values it is zero.
pub proof fn law_average_is_mean(values: Seq<u64>)
    ensures
        values.len() == 0 ==> mean_of(values) == 0,
        values.len() > 0 ==> mean_of(values) * values.len() <= sum_of(values) < (mean_of(values)
            + 1) * values.len(),
{
    if values.len() > 0 {
        lemma_sum_bounds(values);
        let n = values.len() as int;
        let t = sum_of(values);
        assert((t / n) * n <= t < (t / n + 1) * n) by (nonlinear_arith)
            requires
                n > 0,
                t >= 0,
        ;
    }
}

} // verus!

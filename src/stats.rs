use vstd::prelude::*;

verus! {

/// How far along the histogram's range a bucket lies.
#[derive(Clone, Copy, Debug, PartialEq, Eq, Structural)]
pub enum Heat {
    /// The first fifth of the buckets.
    Low,
    /// Up to three fifths.
    Medium,
    /// Up to nine tenths.
    High,
    /// The rest.
    Extreme,
}

/// One non-empty bucket of a report.
#[derive(Clone, Copy, Debug, PartialEq, Eq, Structural)]
pub struct ReportRow {
    pub index: usize,
    pub count: usize,
    pub heat: Heat,
    /// Whether this is the last bucket, which also holds everything beyond the range.
    pub is_overflow: bool,
}

/// The content of a distribution report: the non-empty buckets in order, the
/// number of samples, and how many empty buckets were left out.
pub struct HistogramReport {
    pub rows: Vec<ReportRow>,
    pub total_samples: u64,
    pub hidden_buckets: usize,
}

/// Counts of volatility samples in buckets of width `step_ppm` (volatility in
/// millionths); the last bucket also takes every larger sample. Counts
/// saturate at their type's maximum.
pub struct VolatilityStats {
    buckets: Vec<usize>,
    count: u64,
    step_ppm: u64,
}

/// The bucket a sample falls in: `floor(vol / step)`, clamped to the last bucket.
pub open spec fn bucket_index(vol_ppm: u64, step_ppm: u64, n: nat) -> int {
    if vol_ppm / step_ppm > n - 1 { n - 1 } else { (vol_ppm / step_ppm) as int }
}

pub open spec fn heat_of(i: int, n: int) -> Heat {
    if 5 * i < n {
        Heat::Low
    } else if 5 * i < 3 * n {
        Heat::Medium
    } else if 10 * i < 9 * n {
        Heat::High
    } else {
        Heat::Extreme
    }
}

/// The report rows of the first `b.len()` buckets out of `n`.
pub open spec fn rows_of(b: Seq<usize>, n: int) -> Seq<ReportRow>
    decreases b.len(),
{
    if b.len() == 0 {
        Seq::empty()
    } else {
        let i = b.len() - 1;
        let rest = rows_of(b.drop_last(), n);
        if b.last() == 0 {
            rest
        } else {
            rest.push(ReportRow { index: i as usize, count: b.last(), heat: heat_of(i, n), is_overflow: i == n - 1 })
        }
    }
}

proof fn lemma_rows_len(b: Seq<usize>, n: int)
    ensures
        rows_of(b, n).len() <= b.len(),
    decreases b.len(),
{
    if b.len() > 0 {
        lemma_rows_len(b.drop_last(), n);
    }
}

fn heat(i: usize, n: usize) -> (r: Heat)
    ensures
        r == heat_of(i as int, n as int),
{
    let i: u128 = i as u128;
    let n: u128 = n as u128;
    if 5 * i < n {
        Heat::Low
    } else if 5 * i < 3 * n {
        Heat::Medium
    } else if 10 * i < 9 * n {
        Heat::High
    } else {
        Heat::Extreme
    }
}

impl VolatilityStats {
    /// The bucket counts, lowest bucket first.
    pub closed spec fn spec_buckets(&self) -> Seq<usize> {
        self.buckets@
    }

    pub closed spec fn spec_count(&self) -> u64 {
        self.count
    }

    pub closed spec fn spec_step_ppm(&self) -> u64 {
        self.step_ppm
    }

    pub closed spec fn wf(&self) -> bool {
        self.buckets@.len() >= 1 && self.step_ppm > 0
    }

    pub fn new(step_ppm: u64, bucket_count: usize) -> (r: Self)
        requires
            step_ppm > 0,
            bucket_count >= 1,
        ensures
            r.wf(),
            r.spec_buckets() == Seq::new(bucket_count as nat, |i: int| 0usize),
            r.spec_count() == 0,
            r.spec_step_ppm() == step_ppm,
    {
        let mut buckets: Vec<usize> = Vec::new();
        let mut i: usize = 0;
        while i < bucket_count
            invariant
                i <= bucket_count,
                buckets@ == Seq::new(i as nat, |j: int| 0usize),
            decreases bucket_count - i,
        {
            buckets.push(0);
            i = i + 1;
            assert(buckets@ =~= Seq::new(i as nat, |j: int| 0usize));
        }
        VolatilityStats { buckets, count: 0, step_ppm }
    }

    /// Counts a sample of `vol_ppm` in its bucket.
    pub fn record(&mut self, vol_ppm: u64)
        requires
            old(self).wf(),
        ensures
            final(self).wf(),
            final(self).spec_step_ppm() == old(self).spec_step_ppm(),
            final(self).spec_count() == if old(self).spec_count() == u64::MAX {
                u64::MAX
            } else {
                (old(self).spec_count() + 1) as u64
            },
            ({
                let b = old(self).spec_buckets();
                let i = bucket_index(vol_ppm, old(self).spec_step_ppm(), b.len());
                final(self).spec_buckets() == b.update(
                    i,
                    if b[i] == usize::MAX { usize::MAX } else { (b[i] + 1) as usize },
                )
            }),
    {
        self.count = self.count.saturating_add(1);
        let max_idx = self.buckets.len() - 1;
        let mut index: u64 = vol_ppm / self.step_ppm;
        if index > max_idx as u64 {
            index = max_idx as u64;
        }
        let idx = index as usize;
        let c = self.buckets[idx];
        self.buckets.set(idx, c.saturating_add(1));
    }

    /// The report of the current counts: every non-empty bucket in order, the
    /// number of samples, and the number of empty buckets.
    pub fn generate_report(&self) -> (r: HistogramReport)
        ensures
            r.rows@ == rows_of(self.spec_buckets(), self.spec_buckets().len() as int),
            r.total_samples == self.spec_count(),
            r.hidden_buckets == self.spec_buckets().len() - r.rows@.len(),
    {
        let n = self.buckets.len();
        let mut rows: Vec<ReportRow> = Vec::new();
        let mut i: usize = 0;
        while i < n
            invariant
                n == self.buckets@.len(),
                i <= n,
                rows@ == rows_of(self.buckets@.subrange(0, i as int), n as int),
            decreases n - i,
        {
            assert(self.buckets@.subrange(0, i + 1).drop_last() =~= self.buckets@.subrange(0, i as int));
            let c = self.buckets[i];
            if c > 0 {
                rows.push(ReportRow { index: i, count: c, heat: heat(i, n), is_overflow: i == n - 1 });
            }
            i = i + 1;
        }
        assert(self.buckets@.subrange(0, n as int) =~= self.buckets@);
        proof {
            lemma_rows_len(self.buckets@, n as int);
        }
        let hidden = n - rows.len();
        HistogramReport { rows, total_samples: self.count, hidden_buckets: hidden }
    }

    /// The bucket counts, lowest bucket first.
    pub fn buckets(&self) -> (r: &Vec<usize>)
        ensures
            r@ == self.spec_buckets(),
    {
        &self.buckets
    }

    /// The number of samples recorded.
    pub fn count(&self) -> (r: u64)
        ensures
            r == self.spec_count(),
    {
        self.count
    }

    /// Clears every count, keeping the buckets.
    pub fn reset(&mut self)
        requires
            old(self).wf(),
        ensures
            final(self).wf(),
            final(self).spec_buckets() == Seq::new(old(self).spec_buckets().len(), |i: int| 0usize),
            final(self).spec_count() == 0,
            final(self).spec_step_ppm() == old(self).spec_step_ppm(),
    {
        let n = self.buckets.len();
        let mut i: usize = 0;
        while i < n
            invariant
                n == self.buckets@.len(),
                n == old(self).buckets@.len(),
                n >= 1,
                i <= n,
                self.step_ppm == old(self).step_ppm,
                forall|j: int| 0 <= j < i ==> self.buckets@[j] == 0,
            decreases n - i,
        {
            self.buckets.set(i, 0);
            i = i + 1;
        }
        self.count = 0;
        assert(self.buckets@ =~= Seq::new(n as nat, |i: int| 0usize));
    }
}

} // verus!

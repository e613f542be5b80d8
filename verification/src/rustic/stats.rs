//! Counters of a fuzzing campaign, per worker and for the whole campaign.
use vstd::prelude::*;

verus! {

/// Counters of a fuzzing campaign.
#[derive(Debug, Clone, Copy, PartialEq, Eq, Structural)]
pub struct Stats {
    /// Executions of the target.
    pub execs: u64,
    /// Executions that crashed.
    pub crashes: u64,
    /// Crashes with an error and target not seen before.
    pub unique_crashes: u64,
    /// Seconds since the coverage last grew.
    pub secs_since_last_cov: u64,
    /// Executions per second.
    pub execs_per_sec: u64,
    /// Seconds the campaign has run.
    pub time_running: u64,
    /// Traces in the coverage set.
    pub coverage_size: u64,
}

impl Stats {
    /// All counters at zero.
    pub fn new() -> (r: Self)
        ensures
            r == (Stats {
                execs: 0,
                crashes: 0,
                unique_crashes: 0,
                secs_since_last_cov: 0,
                execs_per_sec: 0,
                time_running: 0,
                coverage_size: 0,
            }),
    {
        Stats {
            execs: 0,
            crashes: 0,
            unique_crashes: 0,
            secs_since_last_cov: 0,
            execs_per_sec: 0,
            time_running: 0,
            coverage_size: 0,
        }
    }

    /// One more second of the campaign: the running time and the time since
    /// the last coverage grow by one, and the execution rate becomes the
    /// executions divided by the running time.
    pub fn tick_second(&mut self)
        requires
            old(self).time_running < u64::MAX,
            old(self).secs_since_last_cov < u64::MAX,
        ensures
            *final(self) == (Stats {
                time_running: (old(self).time_running + 1) as u64,
                secs_since_last_cov: (old(self).secs_since_last_cov + 1) as u64,
                execs_per_sec: (old(self).execs / (old(self).time_running + 1) as u64) as u64,
                ..*old(self)
            }),
    {
        self.execs_per_sec = self.execs;
        self.time_running += 1;
        self.secs_since_last_cov += 1;
        self.execs_per_sec = self.execs_per_sec / self.time_running;
    }

    /// A worker's second, taken when the execution about to be recorded
    /// has run: the time since the last coverage grows by one, and the
    /// execution rate becomes the executions (that one included) divided by
    /// the `secs_elapsed` seconds the worker has run.
    pub fn tick_worker_second(&mut self, secs_elapsed: u64)
        requires
            secs_elapsed > 0,
            old(self).execs < u64::MAX,
            old(self).secs_since_last_cov < u64::MAX,
        ensures
            *final(self) == (Stats {
                secs_since_last_cov: (old(self).secs_since_last_cov + 1) as u64,
                execs_per_sec: ((old(self).execs + 1) / (secs_elapsed as int)) as u64,
                ..*old(self)
            }),
    {
        self.secs_since_last_cov += 1;
        self.execs_per_sec = (self.execs + 1) / secs_elapsed;
    }
}

/// The sum of a list of counters.
pub open spec fn sum_counts(s: Seq<u64>) -> nat
    decreases s.len(),
{
    if s.len() == 0 {
        0
    } else {
        sum_counts(s.drop_last()) + s.last() as nat
    }
}

/// Adds up the counters of every worker.
pub fn sum_counters(counts: &Vec<u64>) -> (r: u64)
    requires
        sum_counts(counts@) <= u64::MAX,
    ensures
        r == sum_counts(counts@),
{
    let mut sum: u64 = 0;
    let mut i: usize = 0;
    proof {
        lemma_sum_counts_prefix(counts@, counts@.len() as int);
        assert(counts@.take(counts@.len() as int) =~= counts@);
    }
    while i < counts.len()
        invariant
            i <= counts.len(),
            sum == sum_counts(counts@.take(i as int)),
            sum_counts(counts@) <= u64::MAX,
            forall|k: int| 0 <= k <= counts@.len() ==> sum_counts(#[trigger] counts@.take(k)) <= sum_counts(counts@),
        decreases counts.len() - i,
    {
        assert(counts@.take(i + 1).drop_last() =~= counts@.take(i as int));
        assert(sum_counts(counts@.take(i + 1)) <= sum_counts(counts@));
        sum = sum + counts[i];
        i += 1;
    }
    assert(counts@.take(counts.len() as int) =~= counts@);
    sum
}

/// Sums of prefixes never exceed the sum of the whole list.
proof fn lemma_sum_counts_prefix(s: Seq<u64>, n: int)
    requires
        0 <= n <= s.len(),
    ensures
        forall|k: int| 0 <= k <= n ==> sum_counts(#[trigger] s.take(k)) <= sum_counts(s.take(n)),
    decreases n,
{
    if n > 0 {
        lemma_sum_counts_prefix(s, n - 1);
        assert(s.take(n).drop_last() =~= s.take(n - 1));
    }
    assert(s.take(s.len() as int) =~= s);
}

} // verus!

//! Latency measurements of the input and output processing paths.

use vstd::prelude::*;

verus! {

/// Running minimum, maximum, sum, count and last value of latency samples, in microseconds.
#[derive(Debug)]
pub struct LatencyMetric {
    /// Minimum latency in microseconds (`u64::MAX` before the first sample).
    pub min_us: u64,
    /// Maximum latency in microseconds.
    pub max_us: u64,
    /// Cumulative latency sum in microseconds (wraps on overflow).
    pub sum_us: u64,
    /// Number of measurements taken (wraps on overflow).
    pub count: u64,
    /// Last recorded latency in microseconds.
    pub last_us: u64,
}

/// Sum with wrap-around on overflow.
pub open spec fn wrapping_sum(a: u64, b: u64) -> u64 {
    if a + b > u64::MAX {
        (a + b - u64::MAX - 1) as u64
    } else {
        (a + b) as u64
    }
}

/// The metric after one more sample `v`.
pub open spec fn updated(m: LatencyMetric, v: u64) -> LatencyMetric {
    LatencyMetric {
        min_us: if v < m.min_us { v } else { m.min_us },
        max_us: if v > m.max_us { v } else { m.max_us },
        sum_us: wrapping_sum(m.sum_us, v),
        count: wrapping_sum(m.count, 1),
        last_us: v,
    }
}

impl LatencyMetric {
    /// Updates the metric with a new latency value in microseconds.
    pub fn update(&mut self, value_us: u64)
        ensures
            *final(self) == updated(*old(self), value_us),
    {
        if value_us < self.min_us {
            self.min_us = value_us;
        }
        if value_us > self.max_us {
            self.max_us = value_us;
        }
        self.sum_us = self.sum_us.wrapping_add(value_us);
        self.count = self.count.wrapping_add(1);
        self.last_us = value_us;
    }
}

/// The metric after the samples `vs`, in order, starting from a fresh one.
pub open spec fn metric_after(vs: Seq<u64>) -> LatencyMetric
    decreases vs.len(),
{
    if vs.len() == 0 {
        fresh_metric()
    } else {
        updated(metric_after(vs.drop_last()), vs.last())
    }
}

/// The smallest of the samples `vs` (`u64::MAX` for none).
pub open spec fn seq_min(vs: Seq<u64>) -> u64
    decreases vs.len(),
{
    if vs.len() == 0 {
        u64::MAX
    } else if vs.last() < seq_min(vs.drop_last()) {
        vs.last()
    } else {
        seq_min(vs.drop_last())
    }
}

/// The largest of the samples `vs` (0 for none).
pub open spec fn seq_max(vs: Seq<u64>) -> u64
    decreases vs.len(),
{
    if vs.len() == 0 {
        0
    } else if vs.last() > seq_max(vs.drop_last()) {
        vs.last()
    } else {
        seq_max(vs.drop_last())
    }
}

/// The sum of the samples `vs`.
pub open spec fn seq_sum(vs: Seq<u64>) -> int
    decreases vs.len(),
{
    if vs.len() == 0 {
        0
    } else {
        seq_sum(vs.drop_last()) + vs.last()
    }
}

/// Every sample lies between the smallest and the largest.
pub proof fn lemma_seq_min_max_bound(vs: Seq<u64>, i: int)
    requires
        0 <= i < vs.len(),
    ensures
        seq_min(vs) <= vs[i] <= seq_max(vs),
    decreases vs.len(),
{
    if i < vs.len() - 1 {
        lemma_seq_min_max_bound(vs.drop_last(), i);
    }
}

/// A fresh metric updated with the samples `vs` (at least one; their sum and
/// their number fit in 64 bits) holds their minimum, maximum, sum, number and last
/// value; so the last value lies between the minimum and the maximum.
pub proof fn lemma_metric_after_updates(vs: Seq<u64>)
    requires
        vs.len() >= 1,
        vs.len() <= u64::MAX,
        seq_sum(vs) <= u64::MAX,
    ensures
        metric_after(vs).min_us == seq_min(vs),
        metric_after(vs).max_us == seq_max(vs),
        metric_after(vs).sum_us == seq_sum(vs),
        metric_after(vs).count == vs.len(),
        metric_after(vs).last_us == vs.last(),
        metric_after(vs).min_us <= metric_after(vs).last_us <= metric_after(vs).max_us,
    decreases vs.len(),
{
    lemma_metric_counts(vs);
    lemma_seq_min_max_bound(vs, vs.len() - 1);
}

proof fn lemma_metric_counts(vs: Seq<u64>)
    requires
        seq_sum(vs) <= u64::MAX,
        vs.len() <= u64::MAX,
    ensures
        metric_after(vs).min_us == seq_min(vs),
        metric_after(vs).max_us == seq_max(vs),
        metric_after(vs).sum_us == seq_sum(vs),
        metric_after(vs).count == vs.len(),
    decreases vs.len(),
{
    if vs.len() > 0 {
        let rest = vs.drop_last();
        assert(seq_sum(rest) <= seq_sum(vs));
        lemma_metric_counts(rest);
    }
}

impl Default for LatencyMetric {
    fn default() -> (m: Self)
        ensures
            m.min_us == u64::MAX,
            m.max_us == 0,
            m.sum_us == 0,
            m.count == 0,
            m.last_us == 0,
    {
        LatencyMetric { min_us: u64::MAX, max_us: 0, sum_us: 0, count: 0, last_us: 0 }
    }
}

/// A metric before its first sample.
pub open spec fn fresh_metric() -> LatencyMetric {
    LatencyMetric { min_us: u64::MAX, max_us: 0, sum_us: 0, count: 0, last_us: 0 }
}

/// Collection of latency metrics for different parts of the system.
#[derive(Debug)]
pub struct LatencyStats {
    /// Latency of the input processing pipeline.
    pub input_pipeline: LatencyMetric,
    /// Total input latency including capture.
    pub input_total: LatencyMetric,
    /// Latency of the output processing pipeline.
    pub output_pipeline: LatencyMetric,
    /// Total output latency including playback.
    pub output_total: LatencyMetric,
    /// Number of frames dropped at input.
    pub dropped_input: u64,
    /// Number of packets dropped during network transmission.
    pub dropped_network: u64,
    /// Number of frames dropped at output.
    pub dropped_output: u64,
    /// Whether the output stream is currently active.
    pub output_active: bool,
}

impl LatencyStats {
    /// Increments the dropped input counter.
    pub fn inc_dropped_input(&mut self)
        ensures
            *final(self) == (LatencyStats { dropped_input: wrapping_sum(old(self).dropped_input, 1), ..*old(self) }),
    {
        self.dropped_input = self.dropped_input.wrapping_add(1);
    }

    /// Increments the dropped network counter.
    pub fn inc_dropped_network(&mut self)
        ensures
            *final(self) == (LatencyStats { dropped_network: wrapping_sum(old(self).dropped_network, 1), ..*old(self) }),
    {
        self.dropped_network = self.dropped_network.wrapping_add(1);
    }

    /// Increments the dropped output counter.
    pub fn inc_dropped_output(&mut self)
        ensures
            *final(self) == (LatencyStats { dropped_output: wrapping_sum(old(self).dropped_output, 1), ..*old(self) }),
    {
        self.dropped_output = self.dropped_output.wrapping_add(1);
    }

    /// Sets whether the output is currently active.
    pub fn set_output_active(&mut self, active: bool)
        ensures
            *final(self) == (LatencyStats { output_active: active, ..*old(self) }),
    {
        self.output_active = active;
    }
}

impl Default for LatencyStats {
    fn default() -> (s: Self)
        ensures
            s.input_pipeline == fresh_metric(),
            s.input_total == fresh_metric(),
            s.output_pipeline == fresh_metric(),
            s.output_total == fresh_metric(),
            s.dropped_input == 0,
            s.dropped_network == 0,
            s.dropped_output == 0,
            !s.output_active,
    {
        LatencyStats {
            input_pipeline: LatencyMetric::default(),
            input_total: LatencyMetric::default(),
            output_pipeline: LatencyMetric::default(),
            output_total: LatencyMetric::default(),
            dropped_input: 0,
            dropped_network: 0,
            dropped_output: 0,
            output_active: false,
        }
    }
}

} // verus!

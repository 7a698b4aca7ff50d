//! The frame clock: accumulates per-frame elapsed times into a rolling
//! window and, once the window's total reaches the reporting threshold,
//! reports the window's statistics and starts afresh with no carry-over.

use vstd::prelude::*;

verus! {

/// Accumulated time at which a window is reported, in time units.
pub const REPORT_THRESHOLD: u64 = 1000;

/// Total time of a window of frames, in time units.
pub open spec fn spec_sum(s: Seq<u32>) -> int
    decreases s.len(),
{
    if s.len() == 0 {
        0
    } else {
        spec_sum(s.drop_last()) + s.last()
    }
}

/// Sum of squared frame times of a window.
pub open spec fn spec_sum_sq(s: Seq<u32>) -> int
    decreases s.len(),
{
    if s.len() == 0 {
        0
    } else {
        spec_sum_sq(s.drop_last()) + s.last() * s.last()
    }
}

/// Shortest frame of a nonempty window.
pub open spec fn spec_min(s: Seq<u32>) -> int
    recommends
        s.len() > 0,
    decreases s.len(),
{
    if s.len() <= 1 {
        s[0] as int
    } else {
        let m = spec_min(s.drop_last());
        if s.last() < m {
            s.last() as int
        } else {
            m
        }
    }
}

/// Longest frame of a nonempty window.
pub open spec fn spec_max(s: Seq<u32>) -> int
    recommends
        s.len() > 0,
    decreases s.len(),
{
    if s.len() <= 1 {
        s[0] as int
    } else {
        let m = spec_max(s.drop_last());
        if s.last() > m {
            s.last() as int
        } else {
            m
        }
    }
}

/// A window total is nonnegative.
proof fn lemma_sum_nonneg(s: Seq<u32>)
    ensures
        spec_sum(s) >= 0,
    decreases s.len(),
{
    if s.len() > 0 {
        lemma_sum_nonneg(s.drop_last());
    }
}

/// For nonnegative frame times the sum of squares never exceeds the square
/// of the sum.
proof fn lemma_sum_sq_le_square(s: Seq<u32>)
    ensures
        0 <= spec_sum_sq(s),
        spec_sum_sq(s) <= spec_sum(s) * spec_sum(s),
    decreases s.len(),
{
    if s.len() > 0 {
        let p = s.drop_last();
        let e: int = s.last() as int;
        lemma_sum_sq_le_square(p);
        lemma_sum_nonneg(p);
        let a: int = spec_sum(p);
        assert(spec_sum_sq(p) + e * e <= (a + e) * (a + e)) by (nonlinear_arith)
            requires
                spec_sum_sq(p) <= a * a,
                0 <= a,
                0 <= e,
        ;
    }
}

/// A prefix's sum of squares is bounded by the whole window's.
proof fn lemma_sum_sq_take_le(s: Seq<u32>, i: int)
    requires
        0 <= i <= s.len(),
    ensures
        0 <= spec_sum_sq(s.take(i)),
        spec_sum_sq(s.take(i)) <= spec_sum_sq(s),
    decreases s.len() - i,
{
    lemma_sum_sq_le_square(s.take(i));
    if i == s.len() {
        assert(s.take(i) =~= s);
    } else {
        lemma_sum_sq_take_le(s, i + 1);
        assert(s.take(i + 1).drop_last() =~= s.take(i));
        let e: int = s[i] as int;
        assert(e * e >= 0) by (nonlinear_arith);
        assert(s.take(i + 1).last() == s[i]);
    }
}

/// Statistics for one reported window of frames. `total` and `total_sq` are
/// exact sums; mean and variance follow from them and `frames` without loss.
#[derive(Clone, Copy, Debug, PartialEq, Eq, Structural)]
pub struct FrameReport {
    /// Number of frames in the window.
    pub frames: usize,
    /// Shortest frame, in time units.
    pub min: u32,
    /// Longest frame, in time units.
    pub max: u32,
    /// Total time of the window, in time units.
    pub total: u64,
    /// Sum of squared frame times.
    pub total_sq: u64,
}

impl FrameReport {
    /// Mean frame time in thousandths of a time unit, rounded down.
    pub fn mean_milli(&self) -> (m: u64)
        requires
            self.frames > 0,
            self.total <= 0xFFFF_FFFF + REPORT_THRESHOLD,
        ensures
            m == 1000 * (self.total as int) / (self.frames as int),
    {
        1000 * self.total / self.frames as u64
    }
}

/// Measures per-frame wall time and reports rolling statistics. Between
/// reports the accumulated total always sits below the threshold, and the
/// window holds exactly the frames fed since the last report.
pub struct FrameClock {
    pub ms_accum: u64,
    pub history: Vec<u32>,
}

impl FrameClock {
    /// The accumulator equals the window's total and sits below the
    /// reporting threshold.
    pub open spec fn wf(self) -> bool {
        &&& self.ms_accum == spec_sum(self.history@)
        &&& self.ms_accum < REPORT_THRESHOLD
    }

    /// A fresh clock with an empty window.
    pub fn new() -> (c: Self)
        ensures
            c.wf(),
            c.history@ == Seq::<u32>::empty(),
            c.ms_accum == 0,
    {
        FrameClock { ms_accum: 0, history: Vec::new() }
    }

    /// Feeds one frame's elapsed time. Reports exactly when the accumulated
    /// time reaches the threshold; the report covers every frame fed since
    /// the last report, and the window then resets to empty — no sample
    /// leaks into the next window.
    pub fn frame(&mut self, time: u32) -> (r: Option<FrameReport>)
        requires
            old(self).wf(),
        ensures
            final(self).wf(),
            old(self).ms_accum + time < REPORT_THRESHOLD ==> r is None && final(self).history@
                == old(self).history@.push(time) && final(self).ms_accum == old(self).ms_accum
                + time,
            old(self).ms_accum + time >= REPORT_THRESHOLD ==> (r matches Some(rep)
                && rep.frames == old(self).history@.len() + 1 && rep.total == old(self).ms_accum
                + time && rep.min == spec_min(old(self).history@.push(time)) && rep.max
                == spec_max(old(self).history@.push(time)) && rep.total_sq == spec_sum_sq(
                old(self).history@.push(time),
            ) && final(self).ms_accum == 0 && final(self).history@ == Seq::<u32>::empty()),
    {
        self.history.push(time);
        let new_accum: u64 = self.ms_accum + time as u64;
        self.ms_accum = new_accum;
        proof {
            assert(self.history@.drop_last() =~= old(self).history@);
            assert(self.history@ == old(self).history@.push(time));
            assert(spec_sum(self.history@) == old(self).ms_accum + time);
        }
        if new_accum >= REPORT_THRESHOLD {
            proof {
                lemma_sum_sq_le_square(old(self).history@);
                lemma_sum_nonneg(old(self).history@);
                let s0: int = spec_sum(old(self).history@);
                assert(s0 * s0 <= 999 * 999) by (nonlinear_arith)
                    requires
                        0 <= s0 <= 999,
                ;
                assert((time as int) * (time as int) <= 0xFFFF_FFFF * 0xFFFF_FFFF)
                    by (nonlinear_arith)
                    requires
                        0 <= time as int <= 0xFFFF_FFFF,
                ;
                assert(spec_sum_sq(self.history@) <= 0xFFFF_FFFF * 0xFFFF_FFFF + 999 * 999);
            }
            let n: usize = self.history.len();
            let e0: u32 = self.history[0];
            let mut mn: u32 = e0;
            let mut mx: u32 = e0;
            proof {
                assert((e0 as int) * (e0 as int) <= 0xFFFF_FFFF * 0xFFFF_FFFF)
                    by (nonlinear_arith)
                    requires
                        0 <= e0 as int <= 0xFFFF_FFFF,
                ;
                assert(self.history@.take(1).drop_last() =~= Seq::<u32>::empty());
                assert(self.history@.take(1).len() == 1);
                assert(self.history@.take(1)[0] == self.history@[0]);
                assert(spec_sum_sq(Seq::<u32>::empty()) == 0);
                assert(spec_sum_sq(self.history@.take(1)) == (e0 as int) * (e0 as int));
            }
            let mut sq: u64 = (e0 as u64) * (e0 as u64);
            let mut i: usize = 1;
            while i < n
                invariant
                    1 <= i <= n,
                    n == self.history@.len(),
                    mn == spec_min(self.history@.take(i as int)),
                    mx == spec_max(self.history@.take(i as int)),
                    sq == spec_sum_sq(self.history@.take(i as int)),
                    spec_sum_sq(self.history@) <= 0xFFFF_FFFF * 0xFFFF_FFFF + 999 * 999,
                decreases n - i,
            {
                let e: u32 = self.history[i];
                proof {
                    assert(self.history@.take(i + 1).drop_last() =~= self.history@.take(i as int));
                    assert(self.history@.take(i + 1).last() == self.history@[i as int]);
                    lemma_sum_sq_take_le(self.history@, i + 1);
                    assert((e as int) * (e as int) <= 0xFFFF_FFFF * 0xFFFF_FFFF)
                        by (nonlinear_arith)
                        requires
                            0 <= e as int <= 0xFFFF_FFFF,
                    ;
                }
                if e < mn {
                    mn = e;
                }
                if e > mx {
                    mx = e;
                }
                sq = sq + (e as u64) * (e as u64);
                i = i + 1;
            }
            proof {
                assert(self.history@.take(n as int) =~= self.history@);
            }
            let report = FrameReport {
                frames: n,
                min: mn,
                max: mx,
                total: new_accum,
                total_sq: sq,
            };
            self.ms_accum = 0;
            self.history = Vec::new();
            Some(report)
        } else {
            None
        }
    }
}

} // verus!

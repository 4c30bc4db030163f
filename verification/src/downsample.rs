//! Uniform stride thinning of large frames for display.

use vstd::prelude::*;
use crate::lidar::LidarFrame;
use vstd::arithmetic::mul::lemma_mul_inequality;

verus! {

/// The sampling stride for `len` points under the bound `limit`:
/// `len / limit` rounded toward zero, and at least 1.
pub open spec fn spec_step(len: int, limit: int) -> int
    recommends
        limit >= 1,
{
    if len / limit < 1 {
        1
    } else {
        len / limit
    }
}

/// Whether `out` is `inp` thinned to every `step`-th element: exactly the
/// elements of `inp` at the indices `0, step, 2 * step, ...`, in order.
pub open spec fn strided<T>(out: Seq<T>, inp: Seq<T>, step: int) -> bool {
    &&& forall|j: int| 0 <= j < out.len() ==> #[trigger] (j * step) < inp.len() && out[j] == inp[j * step]
    &&& forall|j: int| j >= 0 && #[trigger] (j * step) < inp.len() ==> j < out.len()
}

/// Reduces a frame to at most roughly `limit` points by uniform stride
/// sampling. A frame already at or below the limit is returned
/// unchanged. Every kept point keeps the color that sat at its own
/// original index, so points and colors stay aligned.
pub fn downsample(frame: LidarFrame, limit: usize) -> (r: LidarFrame)
    requires
        frame.wf(),
        limit >= 1,
    ensures
        r.wf(),
        frame.points@.len() <= limit ==> r == frame,
        frame.points@.len() > limit ==> {
            let step = spec_step(frame.points@.len() as int, limit as int);
            &&& strided(r.points@, frame.points@, step)
            &&& match (frame.colors, r.colors) {
                (Some(cs), Some(rcs)) => strided(rcs@, cs@, step),
                (None, None) => true,
                _ => false,
            }
            &&& r.timestamp == frame.timestamp
            &&& r.frame_id == frame.frame_id
        },
{
    let n: usize = frame.points.len();
    if n <= limit {
        return frame;
    }
    let mut step: usize = n / limit;
    if step == 0 {
        step = 1;
    }
    let LidarFrame { points, colors, timestamp, frame_id } = frame;
    let ghost gpts = points@;
    let mut out: Vec<crate::lidar::FramePoint> = Vec::new();
    match colors {
        None => {
            let mut i: usize = 0;
            while i < n
                invariant
                    step >= 1,
                    n == gpts.len(),
                    points@ == gpts,
                    i <= n,
                    forall|j: int|
                        0 <= j < out@.len() ==> #[trigger] (j * step) < n && out@[j] == gpts[j
                            * step],
                    i == out@.len() * step || (i == n && n <= out@.len() * step),
                decreases n - i,
            {
                let ghost k = out@.len() as int;
                let ghost prev = out@;
                proof {
                    assert((k + 1) * step == k * step + step) by (nonlinear_arith);
                    assert(i == k * step);
                }
                out.push(points[i]);
                proof {
                    assert forall|j: int|
                        0 <= j < out@.len() implies #[trigger] (j * step) < n && out@[j] == gpts[j
                            * step] by {
                        if j == k {
                            assert(out@[j] == gpts[i as int]);
                        } else {
                            assert(out@[j] == prev[j]);
                        }
                    }
                }
                if step >= n - i {
                    i = n;
                } else {
                    i = i + step;
                }
            }
            proof {
                assert forall|j: int| j >= 0 && #[trigger] (j * step) < gpts.len() implies j
                    < out@.len() by {
                    if j >= out@.len() {
                        lemma_mul_inequality(out@.len() as int, j, step as int);
                    }
                }
            }
            LidarFrame { points: out, colors: None, timestamp, frame_id }
        },
        Some(cs) => {
            let ghost gcs = cs@;
            let mut outc: Vec<crate::lidar::Color> = Vec::new();
            let mut i: usize = 0;
            while i < n
                invariant
                    step >= 1,
                    n == gpts.len(),
                    n == gcs.len(),
                    points@ == gpts,
                    cs@ == gcs,
                    i <= n,
                    out@.len() == outc@.len(),
                    forall|j: int|
                        0 <= j < out@.len() ==> #[trigger] (j * step) < n && out@[j] == gpts[j
                            * step],
                    forall|j: int| 0 <= j < outc@.len() ==> outc@[j] == gcs[#[trigger] (j * step)],
                    i == out@.len() * step || (i == n && n <= out@.len() * step),
                decreases n - i,
            {
                let ghost k = out@.len() as int;
                let ghost prev = out@;
                let ghost prevc = outc@;
                proof {
                    assert((k + 1) * step == k * step + step) by (nonlinear_arith);
                    assert(i == k * step);
                }
                out.push(points[i]);
                outc.push(cs[i]);
                proof {
                    assert forall|j: int|
                        0 <= j < out@.len() implies #[trigger] (j * step) < n && out@[j] == gpts[j
                            * step] by {
                        if j == k {
                            assert(out@[j] == gpts[i as int]);
                        } else {
                            assert(out@[j] == prev[j]);
                        }
                    }
                    assert forall|j: int|
                        0 <= j < outc@.len() implies outc@[j] == gcs[#[trigger] (j * step)] by {
                        if j == k {
                            assert(outc@[j] == gcs[i as int]);
                        } else {
                            assert(outc@[j] == prevc[j]);
                        }
                    }
                }
                if step >= n - i {
                    i = n;
                } else {
                    i = i + step;
                }
            }
            proof {
                assert forall|j: int| j >= 0 && #[trigger] (j * step) < gpts.len() implies j
                    < out@.len() by {
                    if j >= out@.len() {
                        lemma_mul_inequality(out@.len() as int, j, step as int);
                    }
                }
                assert forall|j: int| j >= 0 && #[trigger] (j * step) < gcs.len() implies j
                    < outc@.len() by {
                    if j >= outc@.len() {
                        lemma_mul_inequality(outc@.len() as int, j, step as int);
                    }
                }
            }
            LidarFrame { points: out, colors: Some(outc), timestamp, frame_id }
        },
    }
}

} // verus!

//! Continuous sphere against sphere: which of the two times at which the
//! surfaces meet is the impact of this frame.

use vstd::prelude::*;

verus! {

/// The time of impact within a frame of length `dt`, given the times `t0`
/// and `t1` at which the path of one sphere enters and leaves the reach of
/// the other, both on the frame's own time scale. All three are ordinals.
///
/// There is none where the spheres part before the frame begins (`t1 < 0`)
/// or meet only after it ends. Spheres that already overlap when the frame
/// begins (`t0 < 0`) meet at time zero.
pub open spec fn impact_time(t0: i32, t1: i32, dt: i32) -> Option<i32> {
    let entry = if t0 < 0 {
        0i32
    } else {
        t0
    };
    if t1 < 0 || entry > dt {
        None
    } else {
        Some(entry)
    }
}

/// Picks the time of impact of this frame: see [`impact_time`].
pub fn earliest_impact(t0: i32, t1: i32, dt: i32) -> (toi: Option<i32>)
    ensures
        toi == impact_time(t0, t1, dt),
{
    if t1 < 0 {
        return None;
    }
    let entry: i32 = if t0 < 0 {
        0
    } else {
        t0
    };
    if entry > dt {
        return None;
    }
    Some(entry)
}

/// An impact lies within the frame, and is either the entry time or, where
/// the entry lies in the past, the frame's start.
pub proof fn lemma_impact_within_frame(t0: i32, t1: i32, dt: i32)
    ensures
        impact_time(t0, t1, dt) matches Some(t) ==> 0 <= t <= dt && (t == t0 || (t == 0 && t0 < 0)),
        impact_time(t0, t1, dt) is Some <==> t1 >= 0 && t0 <= dt && 0 <= dt,
{
}

} // verus!

//! Properties of the clock that relate several calls or hold of every state.
use vstd::prelude::*;

use crate::anim::{lemma_caught_up, lemma_delay_positive, lemma_step_valid, AsepriteAnimation};
use crate::info::AsepriteInfo;

verus! {

/// Every frame of `info` is shown for `d` nanoseconds.
pub open spec fn uniform_duration(info: &AsepriteInfo, d: nat) -> bool {
    forall|i: int| 0 <= i < info.frame_count() ==> #[trigger] info.duration(i) == d
}

/// The clock with its elapsed time set to `t`.
pub open spec fn at_elapsed(s: AsepriteAnimation, t: u64) -> AsepriteAnimation {
    AsepriteAnimation { time_elapsed: t, ..s }
}

/// The state after `k` calls of `update`, each with `dt` nanoseconds.
pub open spec fn updated_times(
    s: AsepriteAnimation,
    info: &AsepriteInfo,
    dt: nat,
    k: nat,
) -> AsepriteAnimation
    decreases k,
{
    if k == 0 {
        s
    } else {
        updated_times(s.updated(info, dt), info, dt, (k - 1) as nat)
    }
}

/// A state whose frame is valid stays valid through `update`, whatever
/// time passes; so does every state reached from the start of a tag.
pub proof fn lemma_update_keeps_frame_valid(s: AsepriteAnimation, info: &AsepriteInfo, dt: nat)
    requires
        info.wf(),
        s.frame_valid(info),
    ensures
        s.updated(info, dt).frame_valid(info),
{
    if s.is_playing {
        lemma_caught_up(at_elapsed(s, (s.time_elapsed + dt) as u64), info);
    }
}

/// After `update`, less than the current frame's duration has elapsed on it,
/// for a playing clock, and for a paused one where that held before.
pub proof fn lemma_update_leaves_remainder(s: AsepriteAnimation, info: &AsepriteInfo, dt: nat)
    requires
        info.wf(),
        s.current_frame < info.frame_count(),
        s.is_playing || s.time_elapsed < info.duration(s.current_frame as int),
    ensures
        s.updated(info, dt).time_elapsed < info.duration(
            s.updated(info, dt).current_frame as int,
        ),
{
    if s.is_playing {
        lemma_caught_up(at_elapsed(s, (s.time_elapsed + dt) as u64), info);
    }
}

/// An update with no time passing changes nothing and reports no change,
/// on a paused clock and on one with less than a frame's duration elapsed.
pub proof fn lemma_no_time_no_change(s: AsepriteAnimation, info: &AsepriteInfo)
    requires
        !s.is_playing || s.time_elapsed < info.duration(s.current_frame as int),
    ensures
        s.updated(info, 0) == s,
        !s.update_changes(info, 0),
{
    if s.is_playing {
        assert(at_elapsed(s, (s.time_elapsed + 0) as u64) == s);
    }
}

/// A paused clock never reports a change, whatever time passes.
pub proof fn lemma_paused_no_change(s: AsepriteAnimation, info: &AsepriteInfo, dt: nat)
    requires
        !s.is_playing,
    ensures
        s.updated(info, dt) == s,
        !s.update_changes(info, dt),
{
}

proof fn lemma_steps_keep(s: AsepriteAnimation, info: &AsepriteInfo, k: nat)
    requires
        info.wf(),
        s.current_frame < info.frame_count(),
    ensures
        s.advanced_by(info, k).current_frame < info.frame_count(),
        s.advanced_by(info, k).time_elapsed == s.time_elapsed,
        s.advanced_by(info, k).is_playing == s.is_playing,
        forall|t: u64|
            #[trigger] at_elapsed(s, t).advanced_by(info, k) == at_elapsed(
                s.advanced_by(info, k),
                t,
            ),
    decreases k,
{
    if k > 0 {
        lemma_step_valid(s, info);
        lemma_steps_keep(s.advanced(info), info, (k - 1) as nat);
        assert forall|t: u64| #[trigger]
            at_elapsed(s, t).advanced_by(info, k) == at_elapsed(s.advanced_by(info, k), t) by {
            let a = at_elapsed(s, t);
            let j = (k - 1) as nat;
            assert(a.advanced_by(info, k) == a.advanced(info).advanced_by(info, j));
            assert(a.advanced(info) =~= at_elapsed(s.advanced(info), t));
            assert(a.advanced(info) == at_elapsed(s.advanced(info), t));
            assert(at_elapsed(s.advanced(info), t).advanced_by(info, j) == at_elapsed(
                s.advanced(info).advanced_by(info, j),
                t,
            ));
            assert(s.advanced_by(info, k) == s.advanced(info).advanced_by(info, j));
        }
    }
}

/// With every frame `d` long, catching up `k * d` past a remainder `e < d`
/// takes `k` steps and leaves `e`.
proof fn lemma_catch_up_steps(s: AsepriteAnimation, info: &AsepriteInfo, d: nat, e: u64, k: nat)
    requires
        info.wf(),
        uniform_duration(info, d),
        s.current_frame < info.frame_count(),
        e < d,
        s.time_elapsed == e + k * d,
    ensures
        s.caught_up(info) == at_elapsed(s.advanced_by(info, k), e),
    decreases k,
{
    lemma_delay_positive(info, s.current_frame as int);
    assert(info.duration(s.current_frame as int) == d);
    if k == 0 {
        assert(0 * d == 0);
        assert(at_elapsed(s, e) =~= s);
    } else {
        assert(e + k * d == e + (k - 1) * d + d) by (nonlinear_arith);
        let t = at_elapsed(s, (s.time_elapsed - d) as u64);
        lemma_step_valid(t, info);
        lemma_catch_up_steps(t.advanced(info), info, d, e, (k - 1) as nat);
        lemma_steps_keep(s, info, k);
        lemma_steps_keep(s.advanced(info), info, (k - 1) as nat);
        assert(t.advanced(info) =~= at_elapsed(s.advanced(info), t.time_elapsed));
        assert(at_elapsed(at_elapsed(s.advanced(info), t.time_elapsed).advanced_by(info, (k - 1) as nat), e)
            == at_elapsed(s.advanced_by(info, k), e));
    }
}

/// With every frame `d` long, one update of `k * d` nanoseconds ends in the
/// same state, frame and direction included, as `k` updates of `d` each.
pub proof fn lemma_catch_up_equivalence(
    s: AsepriteAnimation,
    info: &AsepriteInfo,
    d: nat,
    k: nat,
)
    requires
        info.wf(),
        uniform_duration(info, d),
        s.current_frame < info.frame_count(),
        s.time_elapsed < d,
        s.time_elapsed + k * d <= u64::MAX,
    ensures
        s.updated(info, k * d) == updated_times(s, info, d, k),
    decreases k,
{
    if s.is_playing && k > 0 {
        let e = s.time_elapsed;
        let j = (k - 1) as nat;
        let big = (e + k * d) as u64;
        lemma_catch_up_steps(at_elapsed(s, big), info, d, e, k);
        lemma_steps_keep(s, info, k);
        assert(at_elapsed(s, big).advanced_by(info, k) == at_elapsed(s.advanced_by(info, k), big));
        assert(at_elapsed(at_elapsed(s.advanced_by(info, k), big), e) =~= s.advanced_by(info, k));
        assert(s.updated(info, k * d) == s.advanced_by(info, k));
        assert(e + d <= e + k * d) by (nonlinear_arith)
            requires
                k > 0,
        ;
        assert(1 * d == d);
        let one = (e + d) as u64;
        lemma_catch_up_steps(at_elapsed(s, one), info, d, e, 1);
        lemma_steps_keep(s, info, 1);
        assert(at_elapsed(s, one).advanced_by(info, 1) == at_elapsed(s.advanced_by(info, 1), one));
        assert(s.advanced_by(info, 1) == s.advanced(info).advanced_by(info, 0));
        lemma_step_valid(s, info);
        let s1 = s.updated(info, d);
        assert(s1 =~= s.advanced(info));
        assert(e + j * d <= e + k * d) by (nonlinear_arith)
            requires
                j <= k,
        ;
        lemma_catch_up_equivalence(s1, info, d, j);
        let mid = (e + j * d) as u64;
        lemma_catch_up_steps(at_elapsed(s1, mid), info, d, e, j);
        lemma_steps_keep(s1, info, j);
        assert(at_elapsed(s1, mid).advanced_by(info, j) == at_elapsed(s1.advanced_by(info, j), mid));
        assert(at_elapsed(at_elapsed(s1.advanced_by(info, j), mid), e) =~= s1.advanced_by(info, j));
        assert(s1.updated(info, j * d) == s1.advanced_by(info, j));
        assert(s.advanced_by(info, k) == s1.advanced_by(info, j));
        assert(updated_times(s, info, d, k) == updated_times(s1, info, d, j));
    } else if k > 0 {
        assert(s.time_elapsed + (k - 1) * d <= s.time_elapsed + k * d) by (nonlinear_arith)
            requires k > 0;
        lemma_paused_no_change(s, info, d);
        lemma_paused_no_change(s, info, k * d);
        lemma_paused_no_change(s, info, ((k - 1) as nat) * d);
        lemma_catch_up_equivalence(s, info, d, (k - 1) as nat);
    } else {
        assert(k * d == 0) by (nonlinear_arith)
            requires
                k == 0,
        ;
        lemma_delay_positive(info, s.current_frame as int);
        lemma_no_time_no_change(s, info);
    }
}

} // verus!

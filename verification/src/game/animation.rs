use vstd::prelude::*;

use crate::game::definitions::{AnimationDirection, PlaybackMode, PlaybackState};

verus! {

/// The frame and playback state after one frame time elapsed: the next
/// frame, or frame 0 after the last one, where a `Once` animation stops.
pub open spec fn step(frame: nat, state: PlaybackState, frame_count: nat, mode: PlaybackMode) -> (nat, PlaybackState) {
    if frame + 1 >= frame_count {
        (0, if mode != PlaybackMode::Loop { PlaybackState::Stopped } else { state })
    } else {
        ((frame + 1) as nat, state)
    }
}

/// The frame and playback state after `k` frame times elapsed.
pub open spec fn steps(frame: nat, state: PlaybackState, frame_count: nat, mode: PlaybackMode, k: nat) -> (nat, PlaybackState)
    decreases k,
{
    if k == 0 {
        (frame, state)
    } else {
        let prev = steps(frame, state, frame_count, mode, (k - 1) as nat);
        step(prev.0, prev.1, frame_count, mode)
    }
}

/// The playback part of an animator: which animation runs, at which frame,
/// and whether it is playing. Frame times and frame lists stay with the
/// animation data; this part decides what a frame time does.
#[derive(Debug)]
pub struct AnimatorState<K> {
    pub current_animation: K,
    pub current_frame: usize,
    pub playback_state: PlaybackState,
    pub direction: AnimationDirection,
}

impl<K: Copy> AnimatorState<K> {
    /// A stopped animator at frame 0 of `animation`, playing forward.
    pub fn new(animation: K) -> (r: Self)
        ensures
            r.current_animation == animation,
            r.current_frame == 0,
            r.playback_state == PlaybackState::Stopped,
            r.direction == AnimationDirection::Forward,
    {
        AnimatorState {
            current_animation: animation,
            current_frame: 0,
            playback_state: PlaybackState::Stopped,
            direction: AnimationDirection::Forward,
        }
    }

    /// Switches to `animation` and starts playing it; the frame is kept.
    pub fn play(&mut self, animation: K)
        ensures
            final(self).current_animation == animation,
            final(self).playback_state == PlaybackState::Playing,
            final(self).current_frame == old(self).current_frame,
            final(self).direction == old(self).direction,
    {
        self.current_animation = animation;
        self.playback_state = PlaybackState::Playing;
    }

    /// One frame time of an animation with `frame_count` frames elapsed:
    /// moves to the next frame, or back to frame 0 after the last one, where
    /// an animation that does not loop stops.
    pub fn advance(&mut self, frame_count: usize, mode: PlaybackMode)
        requires
            old(self).current_frame < usize::MAX,
        ensures
            (final(self).current_frame as nat, final(self).playback_state) == step(
                old(self).current_frame as nat,
                old(self).playback_state,
                frame_count as nat,
                mode,
            ),
            final(self).current_animation == old(self).current_animation,
            final(self).direction == old(self).direction,
    {
        let next_frame = self.current_frame + 1;
        if next_frame >= frame_count {
            self.current_frame = 0;
            if mode != PlaybackMode::Loop {
                self.playback_state = PlaybackState::Stopped;
            }
        } else {
            self.current_frame = next_frame;
        }
    }

    /// The frame of `frames` to show: the current one while playing, none
    /// when stopped.
    pub fn shown_frame(&self, frames: &[u16]) -> (r: Option<u16>)
        requires
            self.playback_state == PlaybackState::Playing ==> self.current_frame < frames@.len(),
        ensures
            r == (if self.playback_state == PlaybackState::Playing {
                Some(frames@[self.current_frame as int])
            } else {
                None
            }),
    {
        if self.playback_state == PlaybackState::Playing {
            Some(frames[self.current_frame])
        } else {
            None
        }
    }
}

/// With at least one frame, a frame time always lands on a frame of the animation.
pub proof fn lemma_step_in_range(frame: nat, state: PlaybackState, frame_count: nat, mode: PlaybackMode)
    requires
        frame_count > 0,
    ensures
        step(frame, state, frame_count, mode).0 < frame_count,
{
}

/// A looping animation never stops by itself.
pub proof fn lemma_loop_never_stops(frame: nat, state: PlaybackState, frame_count: nat, k: nat)
    ensures
        steps(frame, state, frame_count, PlaybackMode::Loop, k).1 == state,
    decreases k,
{
    if k > 0 {
        lemma_loop_never_stops(frame, state, frame_count, (k - 1) as nat);
    }
}

/// A looping animation walks through its frames in a cycle: after `k` frame
/// times it shows frame `(frame + k) mod frame_count`.
pub proof fn lemma_loop_cycles(frame: nat, state: PlaybackState, frame_count: nat, k: nat)
    requires
        frame < frame_count,
    ensures
        steps(frame, state, frame_count, PlaybackMode::Loop, k).0 == (frame + k) as int % (frame_count as int),
    decreases k,
{
    let n = frame_count as int;
    if k == 0 {
        vstd::arithmetic::div_mod::lemma_small_mod(frame, frame_count);
    } else {
        lemma_loop_cycles(frame, state, frame_count, (k - 1) as nat);
        let a = (frame + k - 1) as int;
        let q = a / n;
        let prev = a % n;
        vstd::arithmetic::div_mod::lemma_fundamental_div_mod(a, n);
        vstd::arithmetic::div_mod::lemma_mod_bound(a, n);
        assert(a == q * n + prev) by (nonlinear_arith)
            requires
                a == n * (a / n) + a % n,
                q == a / n,
                prev == a % n,
        ;
        if prev + 1 >= n {
            assert(a + 1 == (q + 1) * n + 0) by (nonlinear_arith)
                requires
                    a == q * n + prev,
                    prev + 1 == n,
            ;
            vstd::arithmetic::div_mod::lemma_fundamental_div_mod_converse(a + 1, n, q + 1, 0);
        } else {
            vstd::arithmetic::div_mod::lemma_fundamental_div_mod_converse(a + 1, n, q, prev + 1);
        }
    }
}

/// An animation that plays once, started at frame 0, shows each of its
/// frames in order while playing, and stops back at frame 0 after the last.
pub proof fn lemma_once_plays_each_frame(frame_count: nat, k: nat)
    requires
        0 < k <= frame_count,
    ensures
        k < frame_count ==> steps(0, PlaybackState::Playing, frame_count, PlaybackMode::Once, k) == (
        k,
        PlaybackState::Playing,
        ),
        k == frame_count ==> steps(0, PlaybackState::Playing, frame_count, PlaybackMode::Once, k) == (
        0nat,
        PlaybackState::Stopped,
        ),
    decreases k,
{
    if k > 1 {
        lemma_once_plays_each_frame(frame_count, (k - 1) as nat);
    }
    let prev = steps(0, PlaybackState::Playing, frame_count, PlaybackMode::Once, (k - 1) as nat);
    assert(prev == ((k - 1) as nat, PlaybackState::Playing));
}

} // verus!

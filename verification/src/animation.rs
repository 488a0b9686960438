//! Sprite animation: which frame of the current movement state's animation to
//! show. Movement states are named by the caller's numeric key.
use vstd::prelude::*;

verus! {

/// The animation being played (by movement state key) and its current frame.
#[derive(Clone, Copy, PartialEq, Eq, Structural, Debug)]
pub struct AnimationCursor {
    pub current_state: u32,
    pub current_frame: usize,
}

impl AnimationCursor {
    /// Starts at the first frame of `state`'s animation.
    pub fn new(state: u32) -> (c: AnimationCursor)
        ensures
            c == (AnimationCursor { current_state: state, current_frame: 0 }),
    {
        AnimationCursor { current_state: state, current_frame: 0 }
    }

    /// The movement state is `state` this frame: a new state restarts its
    /// animation at the first frame (the caller then restarts the frame timer).
    /// Returns whether the state changed.
    pub fn observe_state(&mut self, state: u32) -> (changed: bool)
        ensures
            changed == (state != old(self).current_state),
            changed ==> *final(self) == (AnimationCursor { current_state: state, current_frame: 0 }),
            !changed ==> *final(self) == *old(self),
    {
        if state != self.current_state {
            self.current_state = state;
            self.current_frame = 0;
            true
        } else {
            false
        }
    }

    /// The frame timer went off: the animation moves one frame on, wrapping after
    /// its last of `frame_count` frames; an animation without frames stays put.
    pub fn advance(&mut self, timer_finished: bool, frame_count: usize)
        requires
            old(self).current_frame < usize::MAX,
        ensures
            final(self).current_state == old(self).current_state,
            final(self).current_frame == (if timer_finished && frame_count > 0 {
                ((old(self).current_frame + 1) % (frame_count as int)) as usize
            } else {
                old(self).current_frame
            }),
    {
        if timer_finished && frame_count > 0 {
            self.current_frame = (self.current_frame + 1) % frame_count;
        }
    }

    /// The frame to show out of `frame_count`, if the animation has that frame.
    pub fn frame_to_show(&self, frame_count: usize) -> (f: Option<usize>)
        ensures
            f == (if self.current_frame < frame_count {
                Some(self.current_frame)
            } else {
                None
            }),
    {
        if self.current_frame < frame_count {
            Some(self.current_frame)
        } else {
            None
        }
    }
}

/// Once an animation has advanced, its frame always lies within the animation.
pub proof fn lemma_advanced_frame_in_range(frame: usize, frame_count: usize)
    requires
        frame_count > 0,
        frame < usize::MAX,
    ensures
        ((frame + 1) % (frame_count as int)) < frame_count,
{
}

} // verus!

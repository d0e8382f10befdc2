use vstd::prelude::*;

use crate::game::definitions::VentAnim;

verus! {

/// First atlas layer of the vent animation (vent shut).
pub const VENT_FIRST_FRAME: u16 = 4;

/// Number of frames of each vent animation.
pub const VENT_FRAME_COUNT: u16 = 10;

/// The atlas layers that a vent animation shows, in order: opening runs
/// from layer 4 up to layer 13, closing runs the other way.
pub open spec fn vent_frames(anim: VentAnim) -> Seq<u16> {
    match anim {
        VentAnim::Opening => Seq::new(VENT_FRAME_COUNT as nat, |i: int| (VENT_FIRST_FRAME + i) as u16),
        VentAnim::Closing => Seq::new(
            VENT_FRAME_COUNT as nat,
            |i: int| (VENT_FIRST_FRAME + VENT_FRAME_COUNT - 1 - i) as u16,
        ),
    }
}

/// The frames of a vent animation.
pub fn vent_animation_frames(anim: VentAnim) -> (frames: Vec<u16>)
    ensures
        frames@ == vent_frames(anim),
{
    let mut frames: Vec<u16> = Vec::new();
    let mut i: u16 = 0;
    while i < VENT_FRAME_COUNT
        invariant
            i <= VENT_FRAME_COUNT,
            frames@ == vent_frames(anim).take(i as int),
        decreases VENT_FRAME_COUNT - i,
    {
        let frame = match anim {
            VentAnim::Opening => VENT_FIRST_FRAME + i,
            VentAnim::Closing => VENT_FIRST_FRAME + VENT_FRAME_COUNT - 1 - i,
        };
        frames.push(frame);
        i += 1;
        assert(frames@ =~= vent_frames(anim).take(i as int));
    }
    assert(vent_frames(anim).take(VENT_FRAME_COUNT as int) =~= vent_frames(anim));
    frames
}

/// Closing a vent shows the frames of opening it in reverse.
pub proof fn lemma_vent_closing_reverses_opening()
    ensures
        vent_frames(VentAnim::Closing) == vent_frames(VentAnim::Opening).reverse(),
{
    assert(vent_frames(VentAnim::Closing) =~= vent_frames(VentAnim::Opening).reverse());
}

} // verus!

use voidseek::game::animation::AnimatorState;
use voidseek::game::definitions::{
    AnimationDirection, PlaybackMode, PlaybackState, TextureAnimKey, VentAnim,
};
use voidseek::game::state::vent_animation_frames;

#[test]
fn new_animator_is_stopped_at_first_frame() {
    let a = AnimatorState::new(TextureAnimKey::NoAnimation);
    assert_eq!(a.current_frame, 0);
    assert_eq!(a.playback_state, PlaybackState::Stopped);
    assert_eq!(a.direction, AnimationDirection::Forward);
    assert_eq!(a.current_animation, TextureAnimKey::NoAnimation);
}

#[test]
fn play_switches_animation_and_keeps_frame() {
    let mut a = AnimatorState::new(TextureAnimKey::NoAnimation);
    a.current_frame = 3;
    a.play(TextureAnimKey::Vent(VentAnim::Opening));
    assert_eq!(a.current_animation, TextureAnimKey::Vent(VentAnim::Opening));
    assert_eq!(a.playback_state, PlaybackState::Playing);
    assert_eq!(a.current_frame, 3);
}

#[test]
fn once_animation_plays_each_frame_then_stops() {
    let mut a = AnimatorState::new(TextureAnimKey::Vent(VentAnim::Opening));
    a.play(TextureAnimKey::Vent(VentAnim::Opening));
    let frames = vent_animation_frames(VentAnim::Opening);
    let mut shown = vec![a.shown_frame(&frames).unwrap()];
    for _ in 1..frames.len() {
        a.advance(frames.len(), PlaybackMode::Once);
        shown.push(a.shown_frame(&frames).unwrap());
    }
    assert_eq!(shown, frames);
    a.advance(frames.len(), PlaybackMode::Once);
    assert_eq!(a.playback_state, PlaybackState::Stopped);
    assert_eq!(a.current_frame, 0);
    assert_eq!(a.shown_frame(&frames), None);
}

#[test]
fn loop_animation_cycles() {
    let mut a = AnimatorState::new(0u8);
    a.play(0u8);
    for _ in 0..7 {
        a.advance(3, PlaybackMode::Loop);
    }
    assert_eq!(a.current_frame, 7 % 3);
    assert_eq!(a.playback_state, PlaybackState::Playing);
}

#[test]
fn advance_past_last_frame_wraps() {
    let mut a = AnimatorState::new(0u8);
    a.play(0u8);
    a.current_frame = 5;
    a.advance(3, PlaybackMode::Loop);
    assert_eq!(a.current_frame, 0);
    a.advance(0, PlaybackMode::Once);
    assert_eq!(a.current_frame, 0);
    assert_eq!(a.playback_state, PlaybackState::Stopped);
}

#[test]
fn vent_frames_run_up_and_down() {
    assert_eq!(vent_animation_frames(VentAnim::Opening), vec![4, 5, 6, 7, 8, 9, 10, 11, 12, 13]);
    assert_eq!(vent_animation_frames(VentAnim::Closing), vec![13, 12, 11, 10, 9, 8, 7, 6, 5, 4]);
    let mut opening = vent_animation_frames(VentAnim::Opening);
    opening.reverse();
    assert_eq!(opening, vent_animation_frames(VentAnim::Closing));
}

use vstd::prelude::*;

verus! {

// --- Animation playback control ---

/// Whether an animator is currently advancing frames.
#[derive(Debug, Clone, Copy, PartialEq, Eq, Structural)]
pub enum PlaybackState {
    Playing,
    Stopped,
}

/// Whether an animation stops after its last frame or starts over.
#[derive(Debug, Clone, Copy, PartialEq, Eq, Structural)]
pub enum PlaybackMode {
    Once,
    Loop,
}

/// Direction in which an animator walks through its frames.
#[derive(Debug, Clone, Copy, PartialEq, Eq, Structural)]
pub enum AnimationDirection {
    Forward,
    Backward,
}

// --- Texture animations ---

/// Animations of a vent tile.
#[derive(Debug, Clone, Copy, PartialEq, Eq, Hash, Structural)]
pub enum VentAnim {
    Opening,
    Closing,
}

/// Animations of a door tile.
#[derive(Debug, Clone, Copy, PartialEq, Eq, Hash, Structural)]
pub enum DoorAnim {
    Opening,
    Closing,
}

/// Key of a texture (wall tile) animation; `NoAnimation` names none.
#[derive(Debug, Clone, Copy, PartialEq, Eq, Hash, Structural)]
pub enum TextureAnimKey {
    NoAnimation,
    Door(DoorAnim),
    Vent(VentAnim),
}

// --- Sprite animations ---

/// Animations of the runner sprite.
#[derive(Debug, Clone, Copy, PartialEq, Eq, Hash, Structural)]
pub enum RunnerAnim {
    Idle,
    Walk,
    Pickup,
    Hurt,
    Death,
}

/// Animations of the chaser sprite.
#[derive(Debug, Clone, Copy, PartialEq, Eq, Hash, Structural)]
pub enum ChaserAnim {
    Idle,
    Walk,
    Attack,
}

/// Key of a sprite animation.
#[derive(Debug, Clone, Copy, PartialEq, Eq, Hash, Structural)]
pub enum SpriteAnimKey {
    Runner(RunnerAnim),
    Chaser(ChaserAnim),
}

// --- Vents ---

/// Axis along which a vent lets the player pass; `NoOrientation` where no
/// vent fits.
#[derive(Debug, Clone, Copy, PartialEq, Eq, Hash, Structural)]
pub enum VentOrientation {
    NoOrientation,
    Vertical,
    Horizontal,
}

// --- Input ---

/// A key that the game reacts to.
#[derive(Debug, Clone, Copy, PartialEq, Eq, Hash, Structural)]
pub enum Input {
    Forward,
    Backward,
    Left,
    Right,
    Interact,
}

} // verus!

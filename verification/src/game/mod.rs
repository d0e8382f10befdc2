pub mod definitions;
pub mod map;
pub mod animation;
pub mod components;
pub mod input;
pub mod systems;
pub mod state;

pub mod atlas;
pub mod definitions;

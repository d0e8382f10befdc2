pub mod definitions;
pub mod backend;
pub mod renderer;

use vstd::prelude::*;

verus! {

/// The render pipelines of the first renderer layout.
#[derive(Debug, Clone, Copy, PartialEq, Eq, Hash, Structural)]
pub enum PipelineType {
    Raycast,
    Blit,
}

/// Bind group scopes of the first renderer layout.
#[derive(Debug, PartialEq, Eq, Hash, Structural)]
pub enum BindScope {
    Camera,
    MapData,
    BlitTexture,
}

} // verus!

use vstd::prelude::*;

verus! {

/// The render pipelines that the renderer builds.
#[derive(Debug, Clone, Copy, PartialEq, Eq, Hash, Structural)]
pub enum RenderPipelineType {
    Raycast,
    Blit,
    Sprite,
}

/// The compute pipelines that the renderer builds.
#[derive(Debug, Clone, Copy, PartialEq, Eq, Hash, Structural)]
pub enum ComputePipelineType {
    Raycast,
}

/// The bind group layouts that the renderer builds, one per scope.
#[derive(Debug, PartialEq, Eq, Hash, Structural)]
pub enum BindScope {
    Camera,
    MapData,
    ComputeRayHits,
    RayHits,
    AtlasTexture,
    BlitTexture,
    AtlasSpriteTexture,
    SpriteInstances,
}

} // verus!

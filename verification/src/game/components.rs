use vstd::prelude::*;

verus! {

/// A static texture: the atlas layer that a tile shows.
#[derive(Debug, Clone, Copy, PartialEq, Eq, Structural)]
pub struct Texture {
    pub atlas_index: u32,
}

} // verus!

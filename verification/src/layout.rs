use crate::rect::{URect, UVec2};
use vstd::prelude::*;

verus! {

/// The layout registry: the canvas extent of one atlas together with the
/// ordered list of published rectangles placed in it, addressed by the index
/// at which each was added.
pub struct TextureAtlasLayout {
    pub size: UVec2,
    pub textures: Vec<URect>,
}

impl TextureAtlasLayout {
    /// An empty layout for an atlas of the given extent.
    pub fn new_empty(size: UVec2) -> (layout: Self)
        ensures
            layout.size == size,
            layout.textures@ == Seq::<URect>::empty(),
    {
        TextureAtlasLayout { size, textures: Vec::new() }
    }

    /// Appends a rectangle and returns the index under which it was recorded.
    pub fn add_texture(&mut self, rect: URect) -> (index: usize)
        ensures
            final(self).size == old(self).size,
            final(self).textures@ == old(self).textures@.push(rect),
            index == old(self).textures@.len(),
    {
        self.textures.push(rect);
        self.textures.len() - 1
    }
}

} // verus!

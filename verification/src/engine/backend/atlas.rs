use vstd::prelude::*;

verus! {

/// What an `AtlasLayers` holds, as mathematical values.
pub struct AtlasView {
    pub rgba: Seq<u8>,
    pub width: u32,
    pub height: u32,
    pub layers: u32,
}

/// The pixel data of a texture atlas being assembled: the RGBA pixels of its
/// layers one after another, the size that every layer shares (set by the
/// first layer) and the number of layers announced.
pub struct AtlasLayers {
    rgba_data: Vec<u8>,
    texture_height: u32,
    texture_width: u32,
    layers: u32,
}

impl View for AtlasLayers {
    type V = AtlasView;

    closed spec fn view(&self) -> AtlasView {
        AtlasView {
            rgba: self.rgba_data@,
            width: self.texture_width,
            height: self.texture_height,
            layers: self.layers,
        }
    }
}

impl AtlasLayers {
    /// An empty atlas: no pixels, size 0 by 0, no layers.
    pub fn new() -> (r: Self)
        ensures
            r@ == (AtlasView { rgba: Seq::empty(), width: 0, height: 0, layers: 0 }),
    {
        AtlasLayers { rgba_data: Vec::new(), texture_height: 0, texture_width: 0, layers: 0 }
    }

    /// Announces how many layers the atlas will hold.
    pub fn set_layer_count(&mut self, count: usize)
        ensures
            final(self)@ == (AtlasView { layers: count as u32, ..old(self)@ }),
    {
        self.layers = count as u32;
    }

    /// Appends the RGBA pixels of layer `index`. The first layer sets the
    /// atlas size; every later layer must have that size.
    pub fn add_layer(&mut self, index: usize, width: u32, height: u32, pixels: &[u8])
        requires
            index != 0 ==> width == old(self)@.width && height == old(self)@.height,
        ensures
            final(self)@ == (AtlasView {
                rgba: old(self)@.rgba + pixels@,
                width: width,
                height: height,
                layers: old(self)@.layers,
            }),
    {
        if index == 0 {
            self.texture_width = width;
            self.texture_height = height;
        }
        let mut i: usize = 0;
        while i < pixels.len()
            invariant
                i <= pixels@.len(),
                self.rgba_data@ == old(self)@.rgba + pixels@.take(i as int),
                self.texture_width == width,
                self.texture_height == height,
                self.layers == old(self)@.layers,
            decreases pixels@.len() - i,
        {
            self.rgba_data.push(pixels[i]);
            i += 1;
            assert(self.rgba_data@ =~= old(self)@.rgba + pixels@.take(i as int));
        }
        assert(pixels@.take(pixels@.len() as int) =~= pixels@);
    }

    /// Drops the collected pixels once they were uploaded; size and layer
    /// count stay.
    pub fn clear_pixels(&mut self)
        ensures
            final(self)@ == (AtlasView { rgba: Seq::empty(), ..old(self)@ }),
    {
        self.rgba_data.clear();
    }

    /// The pixels of all layers, one layer after another.
    pub fn rgba_data(&self) -> (r: &[u8])
        ensures
            r@ == self@.rgba,
    {
        self.rgba_data.as_slice()
    }

    /// Width of every layer in pixels.
    pub fn texture_width(&self) -> (r: u32)
        ensures
            r == self@.width,
    {
        self.texture_width
    }

    /// Height of every layer in pixels.
    pub fn texture_height(&self) -> (r: u32)
        ensures
            r == self@.height,
    {
        self.texture_height
    }

    /// Number of layers announced.
    pub fn layers(&self) -> (r: u32)
        ensures
            r == self@.layers,
    {
        self.layers
    }

    /// Bytes in one row of a layer: four per pixel.
    pub fn bytes_per_row(&self) -> (r: u32)
        requires
            4 * self@.width <= u32::MAX,
        ensures
            r == 4 * self@.width,
    {
        4 * self.texture_width
    }
}

} // verus!

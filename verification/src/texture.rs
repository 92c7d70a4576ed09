//! CPU-side 2D textures: a 32-bit pixel image that is uploaded to the device
//! when dirty.
use vstd::prelude::*;

verus! {

/// A 2D texture: its pixels, their dimensions, whether the device copy is
/// stale, and the device texture handle once one was uploaded.
pub struct Texture2D<T> {
    pub texture_id: usize,
    pub dirty: bool,
    pub image: Vec<u32>,
    pub width: usize,
    pub height: usize,
    pub mtltexture: Option<T>,
}

/// What a device upload of a texture needs: its size and the byte length of
/// one row of 32-bit pixels.
pub struct TextureRegion {
    pub width: u64,
    pub height: u64,
    pub bytes_per_row: u64,
}

impl<T> Texture2D<T> {
    /// Creates an empty texture with the given id and no device copy.
    pub fn new(texture_id: usize) -> (r: Self)
        ensures
            r.texture_id == texture_id,
            !r.dirty,
            r.image@ == Seq::<u32>::empty(),
            r.width == 0,
            r.height == 0,
            r.mtltexture is None,
    {
        Texture2D { texture_id, dirty: false, image: Vec::new(), width: 0, height: 0, mtltexture: None }
    }

    /// Sets the texture's dimensions and sizes the image to `width * height`
    /// pixels, keeping the pixels that fit and filling new ones with 0; the
    /// texture then needs an upload.
    pub fn resize(&mut self, width: usize, height: usize)
        requires
            width * height <= usize::MAX,
        ensures
            final(self).width == width,
            final(self).height == height,
            final(self).dirty,
            final(self).texture_id == old(self).texture_id,
            final(self).mtltexture == old(self).mtltexture,
            final(self).image@.len() == width * height,
            forall|i: int| 0 <= i < final(self).image@.len() ==>
                #[trigger] final(self).image@[i] == if i < old(self).image@.len() { old(self).image@[i] } else { 0u32 },
    {
        self.width = width;
        self.height = height;
        let n: usize = width * height;
        self.image.resize(n, 0u32);
        self.dirty = true;
        proof {
            if n <= old(self).image@.len() {
            } else {
                assert forall|i: int| 0 <= i < self.image@.len() implies
                    #[trigger] self.image@[i] == if i < old(self).image@.len() { old(self).image@[i] } else { 0u32 }
                by {
                    if i < old(self).image@.len() {
                        assert(self.image@.subrange(0, old(self).image@.len() as int)[i] == self.image@[i]);
                    }
                }
            }
        }
    }

    /// The size parameters of a device upload of this texture.
    pub fn upload_region(&self) -> (r: TextureRegion)
        requires
            self.width * 4 <= usize::MAX,
        ensures
            r.width == self.width,
            r.height == self.height,
            r.bytes_per_row == self.width * 4,
    {
        let bytes_per_row: usize = self.width * 4;
        TextureRegion { width: self.width as u64, height: self.height as u64, bytes_per_row: bytes_per_row as u64 }
    }

    /// Records a finished upload: the texture now holds the device copy
    /// `texture` and is no longer dirty.
    pub fn mark_uploaded(&mut self, texture: T)
        ensures
            *final(self) == (Texture2D { dirty: false, mtltexture: Some(texture), ..*old(self) }),
    {
        self.mtltexture = Some(texture);
        self.dirty = false;
    }
}

} // verus!

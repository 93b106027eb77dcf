use vstd::prelude::*;
use crate::packing::align_unit;

verus! {

/// What a buffer is bound as.
#[derive(Clone, Copy, Debug, PartialEq, Eq, Structural)]
pub enum BufferUsage {
    Uniform,
    Storage,
    Vertex,
}

/// The kind of resource a pipeline expects in one binding slot.
#[derive(Clone, Copy, Debug, PartialEq, Eq, Structural)]
pub enum SlotKind {
    UniformBuffer,
    StorageBuffer,
    Texture,
    Sampler,
}

/// A concrete resource handed to a binding slot, by handle.
#[derive(Clone, Copy, Debug, PartialEq, Eq, Structural)]
pub enum Binding {
    Buffer(usize),
    Texture(usize),
    Sampler(usize),
}

#[derive(Clone, Copy, Debug, PartialEq, Eq, Structural)]
pub enum ResourceError {
    /// A buffer smaller than one alignment unit was requested.
    BufferTooSmall,
    /// An image with a zero width or height.
    EmptyImage,
    /// An image whose rows do not fit a 32-bit byte count.
    ImageTooLarge,
    /// Fewer pixel bytes than the image's extent needs.
    TruncatedImage,
    /// Bytes that do not decode as a PNG image.
    Undecodable,
    /// Bindings that do not match the pipeline's slots in count or kind.
    LayoutMismatch,
}

#[derive(Clone, Copy, Debug, PartialEq, Eq, Structural)]
pub struct TextureRecord {
    pub width: u32,
    pub height: u32,
}

/// One upload covering a texture's full extent, tightly packed RGBA8 rows.
#[derive(Clone, Debug)]
pub struct TextureUpload {
    pub texture: usize,
    pub width: u32,
    pub height: u32,
    pub bytes_per_row: u32,
    pub rows_per_image: u32,
    pub pixels: Vec<u8>,
}

/// The device-side resources of an engine, by handle. Each buffer is mirrored
/// by the bytes most recently queued for it: what the device holds once the
/// queue has run.
pub struct ResourceManager {
    pub alignment: u64,
    pub usages: Vec<BufferUsage>,
    pub contents: Vec<Vec<u8>>,
    pub textures: Vec<TextureRecord>,
    pub samplers: usize,
    pub bind_groups: Vec<Vec<Binding>>,
}

/// `c` with `b` written over it from `off` on.
pub open spec fn splice(c: Seq<u8>, off: int, b: Seq<u8>) -> Seq<u8> {
    Seq::new(c.len(), |i: int| if off <= i < off + b.len() { b[i - off] } else { c[i] })
}

/// Writing the same bytes at the same offset a second time changes nothing.
pub proof fn lemma_write_idempotent(c: Seq<u8>, off: int, b: Seq<u8>)
    ensures
        splice(splice(c, off, b), off, b) == splice(c, off, b),
{
    assert(splice(splice(c, off, b), off, b) =~= splice(c, off, b));
}

/// Whether `b` can fill a slot of kind `k` in `m`.
pub open spec fn binding_fits(m: ResourceManager, k: SlotKind, b: Binding) -> bool {
    match b {
        Binding::Buffer(h) => h < m.usages@.len() && (
            (k == SlotKind::UniformBuffer && m.usages@[h as int] == BufferUsage::Uniform)
            || (k == SlotKind::StorageBuffer && m.usages@[h as int] == BufferUsage::Storage)),
        Binding::Texture(t) => k == SlotKind::Texture && t < m.textures@.len(),
        Binding::Sampler(s) => k == SlotKind::Sampler && s < m.samplers,
    }
}

/// Whether `bindings` fill the slots of `layout`, one each, in order.
pub open spec fn bindings_match(m: ResourceManager, layout: Seq<SlotKind>, bindings: Seq<Binding>) -> bool {
    &&& layout.len() == bindings.len()
    &&& forall|i: int| 0 <= i < layout.len() ==> #[trigger] binding_fits(m, layout[i], bindings[i])
}

/// Why an image of this extent and pixel count is refused, if it is.
pub open spec fn texture_error(width: u32, height: u32, len: nat) -> Option<ResourceError> {
    if width == 0 || height == 0 {
        Some(ResourceError::EmptyImage)
    } else if 4 * width > u32::MAX {
        Some(ResourceError::ImageTooLarge)
    } else if len < 4 * width * height {
        Some(ResourceError::TruncatedImage)
    } else {
        None
    }
}

/// The result of decoding PNG bytes to RGBA8: width, height and pixel bytes,
/// or nothing where the bytes do not decode as a PNG image.
pub uninterp spec fn png_rgba8_of(b: Seq<u8>) -> Option<(u32, u32, Seq<u8>)>;

/// Relies on image::load_from_memory_with_format with the built-in PNG format
/// and DynamicImage::to_rgba8: a built-in format is decoded without consulting
/// any registered hook, so the outcome depends on the bytes alone; an RGBA8
/// buffer holds at least four bytes per pixel.
#[verifier::external_body]
fn decode_rgba8(bytes: &[u8]) -> (r: Result<(u32, u32, Vec<u8>), image::ImageError>)
    ensures
        r.is_ok() == png_rgba8_of(bytes@).is_some(),
        r.is_ok() ==> png_rgba8_of(bytes@) == Some((r->Ok_0.0, r->Ok_0.1, r->Ok_0.2@)),
        r.is_ok() ==> r->Ok_0.2@.len() >= 4 * r->Ok_0.0 * r->Ok_0.1,
{
    let rgba = image::load_from_memory_with_format(bytes, image::ImageFormat::Png)?.to_rgba8();
    let (width, height) = rgba.dimensions();
    Ok((width, height, rgba.into_raw()))
}

#[verifier::external_type_specification]
#[verifier::external_body]
pub struct ExImageError(image::ImageError);

impl ResourceManager {
    pub open spec fn wf(&self) -> bool {
        self.usages@.len() == self.contents@.len()
    }

    /// Whether `self` and `o` differ at most in their textures.
    pub open spec fn same_but_textures(&self, o: &ResourceManager) -> bool {
        &&& self.alignment == o.alignment
        &&& self.usages@ == o.usages@
        &&& self.contents@ == o.contents@
        &&& self.samplers == o.samplers
        &&& self.bind_groups@ == o.bind_groups@
    }

    /// An empty manager for a device whose buffer alignment is `alignment`.
    pub fn new(alignment: u64) -> (r: ResourceManager)
        ensures
            r.wf(),
            r.alignment == alignment,
            r.usages@.len() == 0,
            r.textures@.len() == 0,
            r.samplers == 0,
            r.bind_groups@.len() == 0,
    {
        ResourceManager {
            alignment,
            usages: Vec::new(),
            contents: Vec::new(),
            textures: Vec::new(),
            samplers: 0,
            bind_groups: Vec::new(),
        }
    }

    /// Allocates a zero-filled buffer of `size` bytes; refuses one smaller than
    /// an alignment unit.
    pub fn create_buffer(&mut self, usage: BufferUsage, size: u64) -> (r: Result<usize, ResourceError>)
        requires
            old(self).wf(),
            size <= usize::MAX,
        ensures
            final(self).wf(),
            size < align_unit(old(self).alignment as int) ==> r == Err::<usize, ResourceError>(ResourceError::BufferTooSmall) && *final(self) == *old(self),
            size >= align_unit(old(self).alignment as int) ==> {
                &&& r == Ok::<usize, ResourceError>(old(self).usages@.len() as usize)
                &&& final(self).usages@ == old(self).usages@.push(usage)
                &&& final(self).contents@.len() == old(self).contents@.len() + 1
                &&& forall|i: int| 0 <= i < old(self).contents@.len() ==> #[trigger] final(self).contents@[i] == old(self).contents@[i]
                &&& final(self).contents@.last()@ == Seq::new(size as nat, |i: int| 0u8)
                &&& final(self).alignment == old(self).alignment
                &&& final(self).textures@ == old(self).textures@
                &&& final(self).samplers == old(self).samplers
                &&& final(self).bind_groups@ == old(self).bind_groups@
            },
    {
        let unit: u64 = if self.alignment > crate::packing::MIN_RECORD_ALIGN { self.alignment } else { crate::packing::MIN_RECORD_ALIGN };
        if size < unit {
            return Err(ResourceError::BufferTooSmall);
        }
        let n: usize = size as usize;
        let mut zeros: Vec<u8> = Vec::new();
        let mut i: usize = 0;
        while i < n
            invariant
                i <= n,
                zeros@ == Seq::new(i as nat, |k: int| 0u8),
            decreases n - i,
        {
            zeros.push(0u8);
            i = i + 1;
            assert(zeros@ =~= Seq::new(i as nat, |k: int| 0u8));
        }
        let h: usize = self.usages.len();
        self.usages.push(usage);
        self.contents.push(zeros);
        Ok(h)
    }

    /// Queues `bytes` for buffer `h` at `offset`; the region must lie within the buffer.
    pub fn write_buffer(&mut self, h: usize, offset: u64, bytes: &[u8])
        requires
            old(self).wf(),
            h < old(self).contents@.len(),
            offset + bytes@.len() <= old(self).contents@[h as int]@.len(),
        ensures
            final(self).wf(),
            final(self).contents@.len() == old(self).contents@.len(),
            final(self).contents@[h as int]@ == splice(old(self).contents@[h as int]@, offset as int, bytes@),
            forall|i: int| 0 <= i < old(self).contents@.len() && i != h ==> #[trigger] final(self).contents@[i] == old(self).contents@[i],
            final(self).alignment == old(self).alignment,
            final(self).usages@ == old(self).usages@,
            final(self).textures@ == old(self).textures@,
            final(self).samplers == old(self).samplers,
            final(self).bind_groups@ == old(self).bind_groups@,
    {
        let mut buf: Vec<u8> = Vec::new();
        self.contents.set_and_swap(h, &mut buf);
        let ghost before = buf@;
        let blen: usize = buf.len();
        let off: usize = offset as usize;
        let mut k: usize = 0;
        while k < bytes.len()
            invariant
                k <= bytes@.len(),
                off + bytes@.len() <= before.len(),
                before.len() == blen,
                off == offset,
                buf@.len() == before.len(),
                forall|i: int| 0 <= i < buf@.len() ==> #[trigger] buf@[i] == (if off <= i < off + k { bytes@[i - off] } else { before[i] }),
            decreases bytes@.len() - k,
        {
            buf.set(off + k, bytes[k]);
            k = k + 1;
        }
        assert(buf@ =~= splice(before, offset as int, bytes@));
        self.contents.set_and_swap(h, &mut buf);
    }

    /// Registers a texture of the given extent and returns the one upload that
    /// fills it, or the reason it is refused.
    pub fn create_texture(&mut self, width: u32, height: u32, pixels: Vec<u8>) -> (r: Result<TextureUpload, ResourceError>)
        ensures
            texture_error(width, height, pixels@.len()) is Some ==> {
                &&& r == Err::<TextureUpload, ResourceError>(texture_error(width, height, pixels@.len())->Some_0)
                &&& *final(self) == *old(self)
            },
            texture_error(width, height, pixels@.len()) is None ==> {
                &&& r is Ok
                &&& r->Ok_0.texture == old(self).textures@.len()
                &&& r->Ok_0.width == width
                &&& r->Ok_0.height == height
                &&& r->Ok_0.bytes_per_row == 4 * width
                &&& r->Ok_0.rows_per_image == height
                &&& r->Ok_0.pixels@ == pixels@
                &&& final(self).textures@ == old(self).textures@.push(TextureRecord { width, height })
                &&& final(self).same_but_textures(old(self))
            },
    {
        if width == 0 || height == 0 {
            return Err(ResourceError::EmptyImage);
        }
        if width > u32::MAX / 4 {
            return Err(ResourceError::ImageTooLarge);
        }
        let row: u32 = 4 * width;
        assert((row as u64) * (height as u64) <= 0xffff_ffffu64 * 0xffff_ffffu64) by (nonlinear_arith)
            requires row <= 0xffff_ffffu32, height <= 0xffff_ffffu32;
        if (pixels.len() as u128) < ((row as u64) * (height as u64)) as u128 {
            return Err(ResourceError::TruncatedImage);
        }
        let t: usize = self.textures.len();
        self.textures.push(TextureRecord { width, height });
        Ok(TextureUpload { texture: t, width, height, bytes_per_row: row, rows_per_image: height, pixels })
    }

    /// Decodes a PNG image to RGBA8 and registers it as a texture.
    pub fn create_texture_from_encoded(&mut self, bytes: &[u8]) -> (r: Result<TextureUpload, ResourceError>)
        ensures
            png_rgba8_of(bytes@) is None ==> {
                &&& r == Err::<TextureUpload, ResourceError>(ResourceError::Undecodable)
                &&& *final(self) == *old(self)
            },
            png_rgba8_of(bytes@) matches Some((w, h, px)) ==> {
                &&& texture_error(w, h, px.len()) is Some ==> {
                    &&& r == Err::<TextureUpload, ResourceError>(texture_error(w, h, px.len())->Some_0)
                    &&& *final(self) == *old(self)
                }
                &&& texture_error(w, h, px.len()) is None ==> {
                    &&& r is Ok
                    &&& r->Ok_0.texture == old(self).textures@.len()
                    &&& r->Ok_0.width == w
                    &&& r->Ok_0.height == h
                    &&& r->Ok_0.bytes_per_row == 4 * w
                    &&& r->Ok_0.rows_per_image == h
                    &&& r->Ok_0.pixels@ == px
                    &&& final(self).textures@ == old(self).textures@.push(TextureRecord { width: w, height: h })
                    &&& final(self).same_but_textures(old(self))
                }
            },
    {
        match decode_rgba8(bytes) {
            Ok((width, height, pixels)) => self.create_texture(width, height, pixels),
            Err(_) => Err(ResourceError::Undecodable),
        }
    }

    /// Creates a sampler and returns its handle.
    pub fn create_sampler(&mut self) -> (r: usize)
        requires
            old(self).samplers < usize::MAX,
        ensures
            r == old(self).samplers,
            final(self).samplers == old(self).samplers + 1,
            final(self).alignment == old(self).alignment,
            final(self).usages@ == old(self).usages@,
            final(self).contents@ == old(self).contents@,
            final(self).textures@ == old(self).textures@,
            final(self).bind_groups@ == old(self).bind_groups@,
    {
        let s = self.samplers;
        self.samplers = s + 1;
        s
    }

    /// Whether `b` can fill a slot of kind `k`.
    pub fn fits(&self, k: SlotKind, b: Binding) -> (r: bool)
        requires
            self.wf(),
        ensures
            r == binding_fits(*self, k, b),
    {
        match b {
            Binding::Buffer(h) => h < self.usages.len() && (
                (k == SlotKind::UniformBuffer && self.usages[h] == BufferUsage::Uniform)
                || (k == SlotKind::StorageBuffer && self.usages[h] == BufferUsage::Storage)),
            Binding::Texture(t) => k == SlotKind::Texture && t < self.textures.len(),
            Binding::Sampler(s) => k == SlotKind::Sampler && s < self.samplers,
        }
    }

    /// Associates `bindings` with the slots of `layout`; refuses them unless
    /// they match in count and each refers to an existing resource of the
    /// slot's kind.
    pub fn create_bind_group(&mut self, layout: &Vec<SlotKind>, bindings: &Vec<Binding>) -> (r: Result<usize, ResourceError>)
        requires
            old(self).wf(),
        ensures
            final(self).wf(),
            !bindings_match(*old(self), layout@, bindings@) ==> r == Err::<usize, ResourceError>(ResourceError::LayoutMismatch) && *final(self) == *old(self),
            bindings_match(*old(self), layout@, bindings@) ==> {
                &&& r == Ok::<usize, ResourceError>(old(self).bind_groups@.len() as usize)
                &&& final(self).bind_groups@.len() == old(self).bind_groups@.len() + 1
                &&& forall|i: int| 0 <= i < old(self).bind_groups@.len() ==> #[trigger] final(self).bind_groups@[i] == old(self).bind_groups@[i]
                &&& final(self).bind_groups@.last()@ == bindings@
                &&& final(self).alignment == old(self).alignment
                &&& final(self).usages@ == old(self).usages@
                &&& final(self).contents@ == old(self).contents@
                &&& final(self).textures@ == old(self).textures@
                &&& final(self).samplers == old(self).samplers
            },
    {
        if layout.len() != bindings.len() {
            return Err(ResourceError::LayoutMismatch);
        }
        let mut i: usize = 0;
        while i < layout.len()
            invariant
                i <= layout@.len(),
                layout@.len() == bindings@.len(),
                self.wf(),
                forall|j: int| 0 <= j < i ==> #[trigger] binding_fits(*self, layout@[j], bindings@[j]),
            decreases layout@.len() - i,
        {
            if !self.fits(layout[i], bindings[i]) {
                return Err(ResourceError::LayoutMismatch);
            }
            i = i + 1;
        }
        let g: usize = self.bind_groups.len();
        self.bind_groups.push(bindings.clone());
        Ok(g)
    }
}

} // verus!

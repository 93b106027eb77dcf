use vstd::prelude::*;
use crate::frame::{frame_commands, frame_commands_spec, AcquireOutcome, DrawStrategy, FrameOutcome};
use crate::packing::{
    align_unit, base_words, extra_words, holds_words, lemma_small_record_stride, lemma_stride_bounds, pack_base_block,
    pack_extra_block, record_stride, stride_spec, words_to_bytes, InstanceParams,
    BASE_RECORD_BYTES, EXTRA_RECORD_BYTES,
};
use crate::resources::{
    bindings_match, png_rgba8_of, texture_error, Binding, BufferUsage, ResourceError,
    ResourceManager, SlotKind, TextureUpload,
};
use crate::surface::{
    configure_spec, is_preferred_format, SurfaceConfig, SurfaceController, SurfaceError,
    SurfaceState,
};

verus! {

#[derive(Clone, Copy, Debug, PartialEq, Eq, Structural)]
pub enum EngineError {
    Surface(SurfaceError),
    Resource(ResourceError),
    /// Vertex positions that are not whole `(x, y)` pairs.
    GeometryMismatch,
    /// More instances or vertices than a draw call or a buffer can address.
    TooLarge,
}

/// The engine: one surface, the resources its pipeline binds, the instances
/// and the way they are drawn.
pub struct RenderEngine {
    pub surface: SurfaceController,
    pub resources: ResourceManager,
    pub instances: Vec<InstanceParams>,
    pub base_stride: u64,
    pub extra_stride: u64,
    pub strategy: DrawStrategy,
}

/// Why an instanced engine cannot be built from `n` instances and `plen`
/// position words, if it cannot.
pub open spec fn instanced_error(n: nat, plen: nat, alignment: u64) -> Option<EngineError> {
    if plen % 2 != 0 {
        Some(EngineError::GeometryMismatch)
    } else if n > u32::MAX || n * stride_spec(BASE_RECORD_BYTES as int, alignment as int) > usize::MAX
        || plen > u32::MAX / 8 {
        Some(EngineError::TooLarge)
    } else if n == 0 || plen == 0 {
        Some(EngineError::Resource(ResourceError::BufferTooSmall))
    } else {
        None
    }
}

/// The buffer layout an instanced engine starts with.
pub open spec fn instanced_start(e: RenderEngine, instances: Seq<InstanceParams>, positions: Seq<u32>) -> bool {
    let n = instances.len();
    &&& e.instances@ == instances
    &&& e.base_stride == stride_spec(BASE_RECORD_BYTES as int, e.resources.alignment as int)
    &&& e.extra_stride == stride_spec(EXTRA_RECORD_BYTES as int, e.resources.alignment as int)
    &&& e.base_stride == align_unit(e.resources.alignment as int)
    &&& e.extra_stride == align_unit(e.resources.alignment as int)
    &&& e.strategy == DrawStrategy::Instanced { bind_group: 0, extra_buffer: 1, vertex_count: (positions.len() / 2) as u32 }
    &&& e.resources.usages@ == seq![BufferUsage::Storage, BufferUsage::Storage, BufferUsage::Storage]
    &&& e.resources.contents@[0]@.len() == n * e.base_stride
    &&& holds_words(e.resources.contents@[0]@, base_words(instances, (e.base_stride / 4) as int))
    &&& e.resources.contents@[1]@ == Seq::new((n * e.extra_stride) as nat, |i: int| 0u8)
    &&& holds_words(e.resources.contents@[2]@.take(4 * positions.len() as int), positions)
    &&& e.resources.bind_groups@.len() == 1
    &&& e.resources.bind_groups@[0]@ == seq![Binding::Buffer(0), Binding::Buffer(1), Binding::Buffer(2)]
}

/// The per-frame records a frame leaves in the buffer mirrors of `post`,
/// given the horizontal scales `scale_x` and the engine `pre` before it.
pub open spec fn extras_written(pre: RenderEngine, post: RenderEngine, scale_x: Seq<u32>) -> bool {
    let wpr = (pre.extra_stride / 4) as int;
    let ps = pre.instances@;
    let c = post.resources.contents@;
    &&& c.len() == pre.resources.contents@.len()
    &&& match pre.strategy {
        DrawStrategy::Instanced { bind_group, extra_buffer, vertex_count } => {
            &&& holds_words(c[extra_buffer as int]@, extra_words(scale_x, ps, wpr))
            &&& forall|k: int| 0 <= k < c.len() && k != extra_buffer ==> #[trigger] c[k] == pre.resources.contents@[k]
        },
        DrawStrategy::UniformPerInstance { bind_groups, extra_buffers, vertex_count } => {
            &&& forall|i: int| 0 <= i < ps.len() ==> holds_words(
                #[trigger] c[extra_buffers@[i] as int]@, extra_words(seq![scale_x[i]], seq![ps[i]], wpr))
            &&& forall|k: int| 0 <= k < c.len() && !extra_buffers@.contains(k as usize) ==> #[trigger] c[k] == pre.resources.contents@[k]
        },
        _ => c == pre.resources.contents@,
    }
}

/// Writes the per-frame record of instance `i` over the whole of buffer `b`.
fn write_one_extra(resources: &mut ResourceManager, instances: &Vec<InstanceParams>, stride: u64, b: usize, i: usize, scale_x: &Vec<u32>)
    requires
        old(resources).wf(),
        i < instances@.len(),
        i < scale_x@.len(),
        b < old(resources).contents@.len(),
        old(resources).contents@[b as int]@.len() == stride,
        stride % 4 == 0,
        EXTRA_RECORD_BYTES <= stride <= u32::MAX,
    ensures
        final(resources).wf(),
        final(resources).alignment == old(resources).alignment,
        final(resources).usages@ == old(resources).usages@,
        final(resources).textures@ == old(resources).textures@,
        final(resources).samplers == old(resources).samplers,
        final(resources).bind_groups@ == old(resources).bind_groups@,
        final(resources).contents@.len() == old(resources).contents@.len(),
        final(resources).contents@[b as int]@.len() == stride,
        holds_words(final(resources).contents@[b as int]@, extra_words(
            seq![scale_x@[i as int]], seq![instances@[i as int]], (stride / 4) as int)),
        forall|k: int| 0 <= k < old(resources).contents@.len() && k != b ==>
            #[trigger] final(resources).contents@[k] == old(resources).contents@[k],
{
    let one: Vec<InstanceParams> = vec![instances[i]];
    let sx: Vec<u32> = vec![scale_x[i]];
    let bytes = pack_extra_block(&one, &sx, stride);
    assert(bytes@.len() == stride) by {
        let w = (stride / 4) as int;
        assert(stride == 4 * w);
    }
    resources.write_buffer(b, 0, bytes.as_slice());
    assert(resources.contents@[b as int]@ =~= bytes@);
    assert(one@ =~= seq![instances@[i as int]]);
    assert(sx@ =~= seq![scale_x@[i as int]]);
}

impl RenderEngine {
    pub open spec fn wf(&self) -> bool {
        let n = self.instances@.len();
        let c = self.resources.contents@;
        &&& self.resources.wf()
        &&& n <= u32::MAX
        &&& self.extra_stride % 4 == 0
        &&& EXTRA_RECORD_BYTES <= self.extra_stride <= u32::MAX
        &&& n * self.extra_stride <= usize::MAX
        &&& match self.strategy {
            DrawStrategy::Triangle => true,
            DrawStrategy::TexturedQuad { bind_group } => bind_group < self.resources.bind_groups@.len(),
            DrawStrategy::UniformPerInstance { bind_groups, extra_buffers, vertex_count } => {
                &&& bind_groups@.len() == n
                &&& extra_buffers@.len() == n
                &&& forall|i: int| 0 <= i < n ==> #[trigger] extra_buffers@[i] < c.len()
                    && c[extra_buffers@[i] as int]@.len() == self.extra_stride
                &&& forall|i: int| 0 <= i < n ==> #[trigger] bind_groups@[i] < self.resources.bind_groups@.len()
                &&& forall|i: int, j: int| 0 <= i < j < n ==> #[trigger] extra_buffers@[i] != #[trigger] extra_buffers@[j]
            },
            DrawStrategy::Instanced { bind_group, extra_buffer, vertex_count } => {
                &&& bind_group < self.resources.bind_groups@.len()
                &&& extra_buffer < c.len()
                &&& c[extra_buffer as int]@.len() == n * self.extra_stride
            },
        }
    }

    /// An engine that draws one triangle from the vertex stage alone.
    pub fn new_triangle(srgb: &Vec<bool>, alignment: u64) -> (r: Result<RenderEngine, EngineError>)
        requires
            alignment <= 0x1_0000,
            alignment % 4 == 0,
        ensures
            srgb@.len() == 0 <==> r == Err::<RenderEngine, EngineError>(EngineError::Surface(SurfaceError::NoFormats)),
            srgb@.len() > 0 <==> r is Ok,
            r matches Ok(e) ==> {
                &&& e.wf()
                &&& is_preferred_format(srgb@, e.surface.format as int)
                &&& e.surface.state == SurfaceState::Unconfigured
                &&& e.resources.alignment == alignment
                &&& e.base_stride == stride_spec(BASE_RECORD_BYTES as int, alignment as int)
                &&& e.extra_stride == stride_spec(EXTRA_RECORD_BYTES as int, alignment as int)
                &&& e.base_stride == align_unit(alignment as int)
                &&& e.extra_stride == align_unit(alignment as int)
                &&& e.strategy == DrawStrategy::Triangle
                &&& e.instances@.len() == 0
                &&& e.resources.usages@.len() == 0
                &&& e.resources.bind_groups@.len() == 0
            },
    {
        let surface = match SurfaceController::new(srgb) {
            Ok(s) => s,
            Err(e) => return Err(EngineError::Surface(e)),
        };
        let extra_stride = record_stride(EXTRA_RECORD_BYTES, alignment);
        proof {
            lemma_stride_bounds(EXTRA_RECORD_BYTES as int, alignment as int);
            lemma_small_record_stride(BASE_RECORD_BYTES as int, alignment as int);
            lemma_small_record_stride(EXTRA_RECORD_BYTES as int, alignment as int);
        }
        Ok(RenderEngine {
            surface,
            resources: ResourceManager::new(alignment),
            instances: Vec::new(),
            base_stride: record_stride(BASE_RECORD_BYTES, alignment),
            extra_stride,
            strategy: DrawStrategy::Triangle,
        })
    }

    /// An engine that draws one quad textured with a PNG image; returns
    /// the texture's upload beside it.
    pub fn new_textured(srgb: &Vec<bool>, alignment: u64, image: &[u8]) -> (r: Result<(RenderEngine, TextureUpload), EngineError>)
        requires
            alignment <= 0x1_0000,
            alignment % 4 == 0,
        ensures
            srgb@.len() == 0 ==> r == Err::<(RenderEngine, TextureUpload), EngineError>(EngineError::Surface(SurfaceError::NoFormats)),
            srgb@.len() > 0 && png_rgba8_of(image@) is None ==>
                r == Err::<(RenderEngine, TextureUpload), EngineError>(EngineError::Resource(ResourceError::Undecodable)),
            srgb@.len() > 0 ==> (png_rgba8_of(image@) matches Some((w, h, px)) ==> {
                &&& texture_error(w, h, px.len()) matches Some(te) ==>
                    r == Err::<(RenderEngine, TextureUpload), EngineError>(EngineError::Resource(te))
                &&& texture_error(w, h, px.len()) is None ==> (r matches Ok((e, up)) && {
                    &&& e.wf()
                    &&& is_preferred_format(srgb@, e.surface.format as int)
                    &&& e.surface.state == SurfaceState::Unconfigured
                    &&& e.strategy == DrawStrategy::TexturedQuad { bind_group: 0 }
                    &&& e.resources.alignment == alignment
                    &&& e.base_stride == stride_spec(BASE_RECORD_BYTES as int, alignment as int)
                    &&& e.extra_stride == stride_spec(EXTRA_RECORD_BYTES as int, alignment as int)
                    &&& e.base_stride == align_unit(alignment as int)
                    &&& e.extra_stride == align_unit(alignment as int)
                    &&& e.instances@.len() == 0
                    &&& e.resources.textures@ == seq![crate::resources::TextureRecord { width: w, height: h }]
                    &&& e.resources.samplers == 1
                    &&& e.resources.bind_groups@.len() == 1
                    &&& e.resources.bind_groups@[0]@ == seq![Binding::Sampler(0), Binding::Texture(0)]
                    &&& up.texture == 0 && up.width == w && up.height == h
                    &&& up.bytes_per_row == 4 * w && up.rows_per_image == h
                    &&& up.pixels@ == px
                })
            }),
    {
        let surface = match SurfaceController::new(srgb) {
            Ok(s) => s,
            Err(e) => return Err(EngineError::Surface(e)),
        };
        let mut resources = ResourceManager::new(alignment);
        let upload = match resources.create_texture_from_encoded(image) {
            Ok(u) => u,
            Err(e) => return Err(EngineError::Resource(e)),
        };
        let sampler = resources.create_sampler();
        let layout: Vec<SlotKind> = vec![SlotKind::Sampler, SlotKind::Texture];
        let bindings: Vec<Binding> = vec![Binding::Sampler(sampler), Binding::Texture(upload.texture)];
        assert(bindings_match(resources, layout@, bindings@)) by {
            assert(crate::resources::binding_fits(resources, layout@[0], bindings@[0]));
            assert(crate::resources::binding_fits(resources, layout@[1], bindings@[1]));
        }
        let group = match resources.create_bind_group(&layout, &bindings) {
            Ok(g) => g,
            Err(e) => return Err(EngineError::Resource(e)),
        };
        let extra_stride = record_stride(EXTRA_RECORD_BYTES, alignment);
        proof {
            lemma_stride_bounds(EXTRA_RECORD_BYTES as int, alignment as int);
            lemma_small_record_stride(BASE_RECORD_BYTES as int, alignment as int);
            lemma_small_record_stride(EXTRA_RECORD_BYTES as int, alignment as int);
        }
        let engine = RenderEngine {
            surface,
            resources,
            instances: Vec::new(),
            base_stride: record_stride(BASE_RECORD_BYTES, alignment),
            extra_stride,
            strategy: DrawStrategy::TexturedQuad { bind_group: group },
        };
        Ok((engine, upload))
    }

    /// An engine that draws every instance of `instances` with one instanced
    /// draw over a shape whose vertex positions are `positions`, as `(x, y)`
    /// bit-pattern pairs. Its base block is packed and queued here.
    pub fn new_instanced(srgb: &Vec<bool>, alignment: u64, instances: Vec<InstanceParams>, positions: &Vec<u32>) -> (r: Result<RenderEngine, EngineError>)
        requires
            alignment <= 0x1_0000,
            alignment % 4 == 0,
        ensures
            srgb@.len() == 0 ==> r == Err::<RenderEngine, EngineError>(EngineError::Surface(SurfaceError::NoFormats)),
            srgb@.len() > 0 ==> (instanced_error(instances@.len(), positions@.len(), alignment) matches Some(ie) ==>
                r == Err::<RenderEngine, EngineError>(ie)),
            srgb@.len() > 0 && instanced_error(instances@.len(), positions@.len(), alignment) is None ==> (r matches Ok(e) && {
                &&& e.wf()
                &&& is_preferred_format(srgb@, e.surface.format as int)
                &&& e.surface.state == SurfaceState::Unconfigured
                &&& e.resources.alignment == alignment
                &&& instanced_start(e, instances@, positions@)
            }),
    {
        let surface = match SurfaceController::new(srgb) {
            Ok(s) => s,
            Err(e) => return Err(EngineError::Surface(e)),
        };
        let plen: usize = positions.len();
        if plen % 2 != 0 {
            return Err(EngineError::GeometryMismatch);
        }
        let n: usize = instances.len();
        let base_stride = record_stride(BASE_RECORD_BYTES, alignment);
        let extra_stride = record_stride(EXTRA_RECORD_BYTES, alignment);
        proof {
            lemma_stride_bounds(BASE_RECORD_BYTES as int, alignment as int);
            lemma_stride_bounds(EXTRA_RECORD_BYTES as int, alignment as int);
        }
        if n as u64 > u32::MAX as u64 || plen as u64 > (u32::MAX / 8) as u64 {
            return Err(EngineError::TooLarge);
        }
        let base_len: u64 = match (n as u64).checked_mul(base_stride) {
            Some(l) => l,
            None => return Err(EngineError::TooLarge),
        };
        if base_len as u128 > usize::MAX as u128 {
            return Err(EngineError::TooLarge);
        }
        if n == 0 || plen == 0 {
            return Err(EngineError::Resource(ResourceError::BufferTooSmall));
        }
        let ghost unit = align_unit(alignment as int);
        assert(base_len >= unit) by (nonlinear_arith)
            requires base_len == n * base_stride, n >= 1, base_stride >= unit;
        proof {
            lemma_small_record_stride(BASE_RECORD_BYTES as int, alignment as int);
            lemma_small_record_stride(EXTRA_RECORD_BYTES as int, alignment as int);
        }
        assert(n * extra_stride <= n * base_stride) by (nonlinear_arith)
            requires extra_stride <= base_stride;
        assert(n * extra_stride >= unit) by (nonlinear_arith)
            requires n >= 1, extra_stride >= unit;
        let extra_len: u64 = (n as u64) * extra_stride;
        let vbytes: u64 = 4 * (plen as u64);
        let vsize = record_stride(vbytes, alignment);
        proof {
            lemma_stride_bounds(vbytes as int, alignment as int);
        }
        assert(vsize <= usize::MAX);

        let mut resources = ResourceManager::new(alignment);
        let base = resources.create_buffer(BufferUsage::Storage, base_len);
        let extra = resources.create_buffer(BufferUsage::Storage, extra_len);
        let verts = resources.create_buffer(BufferUsage::Storage, vsize);
        assert(base == Ok::<usize, ResourceError>(0) && extra == Ok::<usize, ResourceError>(1) && verts == Ok::<usize, ResourceError>(2));

        let base_bytes = pack_base_block(&instances, base_stride);
        assert(base_bytes@.len() == base_len) by {
            let w = (base_stride / 4) as int;
            assert(base_stride == 4 * w);
            assert(4 * (n * w) == n * base_stride) by (nonlinear_arith)
                requires base_stride == 4 * w;
        }
        resources.write_buffer(0, 0, base_bytes.as_slice());
        assert(resources.contents@[0]@ =~= base_bytes@);
        let vert_bytes = words_to_bytes(positions.as_slice());
        resources.write_buffer(2, 0, vert_bytes.as_slice());
        assert(resources.contents@[2]@.take(4 * plen as int) =~= vert_bytes@);

        let layout: Vec<SlotKind> = vec![SlotKind::StorageBuffer, SlotKind::StorageBuffer, SlotKind::StorageBuffer];
        let bindings: Vec<Binding> = vec![Binding::Buffer(0), Binding::Buffer(1), Binding::Buffer(2)];
        assert(resources.usages@ =~= seq![BufferUsage::Storage, BufferUsage::Storage, BufferUsage::Storage]);
        assert(bindings_match(resources, layout@, bindings@)) by {
            assert(crate::resources::binding_fits(resources, layout@[0], bindings@[0]));
            assert(crate::resources::binding_fits(resources, layout@[1], bindings@[1]));
            assert(crate::resources::binding_fits(resources, layout@[2], bindings@[2]));
        }
        let group = match resources.create_bind_group(&layout, &bindings) {
            Ok(g) => g,
            Err(e) => return Err(EngineError::Resource(e)),
        };
        let engine = RenderEngine {
            surface,
            resources,
            instances,
            base_stride,
            extra_stride,
            strategy: DrawStrategy::Instanced { bind_group: group, extra_buffer: 1, vertex_count: (plen / 2) as u32 },
        };
        Ok(engine)
    }

    /// An engine that draws each instance of `instances` as the pipeline's
    /// built-in triangle, with a uniform buffer pair and a bind group of its
    /// own: buffer `2 i` holds the base record of instance `i`, buffer
    /// `2 i + 1` its per-frame record, and bind group `i` binds the two.
    pub fn new_uniform_per_instance(srgb: &Vec<bool>, alignment: u64, instances: Vec<InstanceParams>) -> (r: Result<RenderEngine, EngineError>)
        requires
            alignment <= 0x1_0000,
            alignment % 4 == 0,
        ensures
            srgb@.len() == 0 ==> r == Err::<RenderEngine, EngineError>(EngineError::Surface(SurfaceError::NoFormats)),
            srgb@.len() > 0 && (instances@.len() > u32::MAX
                || 2 * instances@.len() * stride_spec(BASE_RECORD_BYTES as int, alignment as int) > usize::MAX) ==>
                r == Err::<RenderEngine, EngineError>(EngineError::TooLarge),
            srgb@.len() > 0 && instances@.len() <= u32::MAX
                && 2 * instances@.len() * stride_spec(BASE_RECORD_BYTES as int, alignment as int) <= usize::MAX ==> (r matches Ok(e) && {
                let n = instances@.len() as int;
                &&& e.wf()
                &&& is_preferred_format(srgb@, e.surface.format as int)
                &&& e.surface.state == SurfaceState::Unconfigured
                &&& e.instances@ == instances@
                &&& e.base_stride == stride_spec(BASE_RECORD_BYTES as int, alignment as int)
                &&& e.extra_stride == stride_spec(EXTRA_RECORD_BYTES as int, alignment as int)
                &&& e.base_stride == align_unit(alignment as int)
                &&& e.extra_stride == align_unit(alignment as int)
                &&& e.strategy matches DrawStrategy::UniformPerInstance { bind_groups, extra_buffers, vertex_count } && {
                    &&& vertex_count == 3
                    &&& bind_groups@ == Seq::new(n as nat, |i: int| i as usize)
                    &&& extra_buffers@ == Seq::new(n as nat, |i: int| (2 * i + 1) as usize)
                }
                &&& e.resources.usages@ == Seq::new((2 * n) as nat, |k: int| BufferUsage::Uniform)
                &&& forall|i: int| 0 <= i < n ==> holds_words(#[trigger] e.resources.contents@[2 * i]@,
                    base_words(seq![instances@[i]], (e.base_stride / 4) as int))
                &&& forall|i: int| 0 <= i < n ==> #[trigger] e.resources.contents@[2 * i + 1]@
                    == Seq::new(e.extra_stride as nat, |k: int| 0u8)
                &&& e.resources.bind_groups@.len() == n
                &&& forall|i: int| 0 <= i < n ==> (#[trigger] e.resources.bind_groups@[i])@
                    == seq![Binding::Buffer((2 * i) as usize), Binding::Buffer((2 * i + 1) as usize)]
            }),
    {
        let surface = match SurfaceController::new(srgb) {
            Ok(s) => s,
            Err(e) => return Err(EngineError::Surface(e)),
        };
        let n: usize = instances.len();
        let base_stride = record_stride(BASE_RECORD_BYTES, alignment);
        let extra_stride = record_stride(EXTRA_RECORD_BYTES, alignment);
        proof {
            lemma_stride_bounds(BASE_RECORD_BYTES as int, alignment as int);
            lemma_stride_bounds(EXTRA_RECORD_BYTES as int, alignment as int);
        }
        if n as u64 > u32::MAX as u64 {
            return Err(EngineError::TooLarge);
        }
        let total: u64 = match (2 * n as u64).checked_mul(base_stride) {
            Some(t) => t,
            None => return Err(EngineError::TooLarge),
        };
        if total as u128 > usize::MAX as u128 {
            return Err(EngineError::TooLarge);
        }
        proof {
            lemma_small_record_stride(BASE_RECORD_BYTES as int, alignment as int);
            lemma_small_record_stride(EXTRA_RECORD_BYTES as int, alignment as int);
        }
        assert(n * extra_stride <= 2 * n * base_stride) by (nonlinear_arith)
            requires extra_stride <= base_stride;
        let mut resources = ResourceManager::new(alignment);
        let mut bind_groups: Vec<usize> = Vec::new();
        let mut extra_buffers: Vec<usize> = Vec::new();
        let layout: Vec<SlotKind> = vec![SlotKind::UniformBuffer, SlotKind::UniformBuffer];
        let mut i: usize = 0;
        while i < n
            invariant
                i <= n,
                n == instances@.len(),
                n <= u32::MAX,
                2 * n * base_stride <= usize::MAX,
                layout@ == seq![SlotKind::UniformBuffer, SlotKind::UniformBuffer],
                base_stride == stride_spec(BASE_RECORD_BYTES as int, alignment as int),
                extra_stride == stride_spec(EXTRA_RECORD_BYTES as int, alignment as int),
                base_stride % 4 == 0 && base_stride >= align_unit(alignment as int) && base_stride >= BASE_RECORD_BYTES,
                extra_stride % 4 == 0 && extra_stride >= align_unit(alignment as int) && extra_stride <= base_stride,
                base_stride <= u32::MAX,
                resources.wf(),
                resources.alignment == alignment,
                resources.textures@.len() == 0,
                resources.samplers == 0,
                resources.usages@ == Seq::new((2 * i) as nat, |k: int| BufferUsage::Uniform),
                resources.contents@.len() == 2 * i,
                n * extra_stride <= usize::MAX,
                forall|j: int| 0 <= j < i ==> holds_words(#[trigger] resources.contents@[2 * j]@,
                    base_words(seq![instances@[j]], (base_stride / 4) as int)),
                forall|j: int| 0 <= j < i ==> #[trigger] resources.contents@[2 * j + 1]@
                    == Seq::new(extra_stride as nat, |k: int| 0u8),
                resources.bind_groups@.len() == i,
                forall|j: int| 0 <= j < i ==> (#[trigger] resources.bind_groups@[j])@
                    == seq![Binding::Buffer((2 * j) as usize), Binding::Buffer((2 * j + 1) as usize)],
                bind_groups@ == Seq::new(i as nat, |j: int| j as usize),
                extra_buffers@ == Seq::new(i as nat, |j: int| (2 * j + 1) as usize),
            decreases n - i,
        {
            assert(2 * i + 1 < 2 * n * base_stride) by (nonlinear_arith)
                requires i < n, base_stride >= 1;
            let ghost before = resources;
            let bb = resources.create_buffer(BufferUsage::Uniform, base_stride);
            let eb = resources.create_buffer(BufferUsage::Uniform, extra_stride);
            let one: Vec<InstanceParams> = vec![instances[i]];
            let bytes = pack_base_block(&one, base_stride);
            assert(bytes@.len() == base_stride) by {
                let w = (base_stride / 4) as int;
                assert(base_stride == 4 * w);
            }
            resources.write_buffer(2 * i, 0, bytes.as_slice());
            assert(resources.contents@[2 * i as int]@ =~= bytes@);
            assert(one@ =~= seq![instances@[i as int]]);
            let bindings: Vec<Binding> = vec![Binding::Buffer(2 * i), Binding::Buffer(2 * i + 1)];
            assert(resources.usages@ =~= Seq::new((2 * i + 2) as nat, |k: int| BufferUsage::Uniform));
            assert(bindings_match(resources, layout@, bindings@)) by {
                assert(crate::resources::binding_fits(resources, layout@[0], bindings@[0]));
                assert(crate::resources::binding_fits(resources, layout@[1], bindings@[1]));
            }
            let g = resources.create_bind_group(&layout, &bindings);
            bind_groups.push(i);
            extra_buffers.push(2 * i + 1);
            proof {
                assert forall|j: int| 0 <= j <= i implies holds_words(#[trigger] resources.contents@[2 * j]@,
                    base_words(seq![instances@[j]], (base_stride / 4) as int)) by {
                    if j < i {
                        assert(resources.contents@[2 * j] == before.contents@[2 * j]);
                    }
                }
                assert forall|j: int| 0 <= j <= i implies #[trigger] resources.contents@[2 * j + 1]@
                    == Seq::new(extra_stride as nat, |k: int| 0u8) by {
                    if j < i {
                        assert(resources.contents@[2 * j + 1] == before.contents@[2 * j + 1]);
                    }
                }
            }
            i = i + 1;
            assert(bind_groups@ =~= Seq::new(i as nat, |j: int| j as usize));
            assert(extra_buffers@ =~= Seq::new(i as nat, |j: int| (2 * j + 1) as usize));
        }
        let engine = RenderEngine {
            surface,
            resources,
            instances,
            base_stride,
            extra_stride,
            strategy: DrawStrategy::UniformPerInstance { bind_groups, extra_buffers, vertex_count: 3 },
        };
        assert(2 * n <= 2 * n * base_stride) by (nonlinear_arith)
            requires base_stride >= 1;
        assert(engine.wf()) by {
            let ebs = engine.strategy->UniformPerInstance_extra_buffers@;
            assert forall|a: int| 0 <= a < n implies #[trigger] ebs[a] == 2 * a + 1 by {}
            assert forall|a: int, b: int| 0 <= a < b < n implies #[trigger] ebs[a] != #[trigger] ebs[b] by {
                assert(ebs[a] == 2 * a + 1 && ebs[b] == 2 * b + 1);
            }
            assert forall|a: int| 0 <= a < n implies #[trigger] engine.strategy->UniformPerInstance_extra_buffers@[a] < engine.resources.contents@.len()
                && engine.resources.contents@[engine.strategy->UniformPerInstance_extra_buffers@[a] as int]@.len() == extra_stride by {
                assert(ebs[a] == 2 * a + 1);
                assert(engine.resources.contents@[2 * a + 1]@ == Seq::new(extra_stride as nat, |k: int| 0u8));
            }
        }
        Ok(engine)
    }

    /// Whether the surface is configured for a window of exactly this size.
    pub open spec fn configured_for(&self, width: u32, height: u32) -> bool {
        self.surface.state matches SurfaceState::Configured(c) && c.width == width && c.height == height
    }

    /// Everything but the buffer mirrors is as in `o`.
    pub open spec fn same_but_mirrors(&self, o: &RenderEngine) -> bool {
        &&& self.surface == o.surface
        &&& self.instances@ == o.instances@
        &&& self.base_stride == o.base_stride
        &&& self.extra_stride == o.extra_stride
        &&& self.strategy == o.strategy
        &&& self.resources.alignment == o.resources.alignment
        &&& self.resources.usages@ == o.resources.usages@
        &&& self.resources.textures@ == o.resources.textures@
        &&& self.resources.samplers == o.resources.samplers
        &&& self.resources.bind_groups@ == o.resources.bind_groups@
        &&& forall|k: int| 0 <= k < o.resources.contents@.len() ==>
            (#[trigger] self.resources.contents@[k])@.len() == o.resources.contents@[k]@.len()
    }

    /// Runs the decisions of one frame once the surface has answered the
    /// image request with `acquire`, for a window now `width` by `height`.
    /// With an image in hand on a surface configured for that size, the per-frame block is packed from `scale_x` (each instance's
    /// scale over the aspect ratio, as bits) into the buffer mirrors, and the
    /// frame's commands are returned in order. Otherwise nothing changes and
    /// the frame is skipped.
    pub fn render_frame(&mut self, acquire: AcquireOutcome, width: u32, height: u32, scale_x: &Vec<u32>) -> (r: FrameOutcome)
        requires
            old(self).wf(),
            scale_x@.len() == old(self).instances@.len(),
        ensures
            final(self).wf(),
            acquire != AcquireOutcome::Ready ==> {
                &&& r == FrameOutcome::Skipped { reconfigure: !(old(self).surface.state is TornDown)
                    && (acquire == AcquireOutcome::Outdated || acquire == AcquireOutcome::Lost) }
                &&& *final(self) == *old(self)
            },
            acquire == AcquireOutcome::Ready && !old(self).configured_for(width, height) ==> {
                &&& r == FrameOutcome::Skipped { reconfigure: !(old(self).surface.state is TornDown) }
                &&& *final(self) == *old(self)
            },
            acquire == AcquireOutcome::Ready && old(self).configured_for(width, height) ==> {
                &&& r matches FrameOutcome::Rendered { commands } && commands@ == frame_commands_spec(
                    old(self).strategy, old(self).instances@.len() as u32, old(self).extra_stride)
                &&& final(self).same_but_mirrors(old(self))
                &&& extras_written(*old(self), *final(self), scale_x@)
            },
    {
        let live = match self.surface.state {
            SurfaceState::TornDown => false,
            _ => true,
        };
        match acquire {
            AcquireOutcome::Ready => {},
            AcquireOutcome::Outdated | AcquireOutcome::Lost => return FrameOutcome::Skipped { reconfigure: live },
            _ => return FrameOutcome::Skipped { reconfigure: false },
        }
        if self.surface.needs_configure(width, height) {
            return FrameOutcome::Skipped { reconfigure: live };
        }
        let n: usize = self.instances.len();
        let stride = self.extra_stride;
        let ghost pre = *self;
        match &self.strategy {
            DrawStrategy::Instanced { extra_buffer, .. } => {
                let b: usize = *extra_buffer;
                let bytes = pack_extra_block(&self.instances, scale_x, stride);
                assert(bytes@.len() == n * stride) by {
                    let w = (stride / 4) as int;
                    assert(stride == 4 * w);
                    assert(4 * (n * w) == n * stride) by (nonlinear_arith)
                        requires stride == 4 * w;
                }
                self.resources.write_buffer(b, 0, bytes.as_slice());
                assert(self.resources.contents@[b as int]@ =~= bytes@);
            },
            DrawStrategy::UniformPerInstance { extra_buffers, .. } => {
                let mut i: usize = 0;
                while i < n
                    invariant
                        i <= n,
                        n == pre.instances@.len(),
                        pre.wf(),
                        self.resources.wf(),
                        self.same_but_mirrors(&pre),
                        scale_x@.len() == n,
                        stride == pre.extra_stride,
                        pre.strategy matches DrawStrategy::UniformPerInstance { extra_buffers: eb, .. } && eb == *extra_buffers,
                        self.resources.contents@.len() == pre.resources.contents@.len(),
                        forall|j: int| 0 <= j < i ==> holds_words(
                            #[trigger] self.resources.contents@[extra_buffers@[j] as int]@,
                            extra_words(seq![scale_x@[j]], seq![pre.instances@[j]], (stride / 4) as int)),
                        forall|k: int| 0 <= k < self.resources.contents@.len() && !extra_buffers@.take(i as int).contains(k as usize) ==>
                            #[trigger] self.resources.contents@[k] == pre.resources.contents@[k],
                    decreases n - i,
                {
                    let b: usize = extra_buffers[i];
                    let ghost before = self.resources.contents@;
                    write_one_extra(&mut self.resources, &self.instances, stride, b, i, scale_x);
                    proof {
                        assert forall|j: int| 0 <= j < i implies extra_buffers@[j] != b by {
                            assert(extra_buffers@[j] != extra_buffers@[i as int]);
                        }
                        assert forall|k: int| 0 <= k < self.resources.contents@.len() && !extra_buffers@.take(i + 1).contains(k as usize)
                            implies #[trigger] self.resources.contents@[k] == pre.resources.contents@[k] by {
                            assert(extra_buffers@.take(i + 1)[i as int] == b);
                            if extra_buffers@.take(i as int).contains(k as usize) {
                                let t = choose|t: int| 0 <= t < i && extra_buffers@.take(i as int)[t] == k as usize;
                                assert(extra_buffers@.take(i + 1)[t] == k as usize);
                            }
                        }
                    }
                    i = i + 1;
                }
                assert(extra_buffers@.take(n as int) =~= extra_buffers@);
            },
            _ => {},
        }
        let commands = frame_commands(&self.strategy, n as u32, stride);
        FrameOutcome::Rendered { commands }
    }

    /// Reconfigures the surface for the window's new size, before the next frame.
    pub fn handle_resize(&mut self, width: u32, height: u32) -> (r: Result<SurfaceConfig, EngineError>)
        requires
            old(self).wf(),
        ensures
            final(self).wf(),
            final(self).surface.format == old(self).surface.format,
            final(self).surface.state == configure_spec(old(self).surface.state, old(self).surface.format, width, height),
            final(self).resources == old(self).resources,
            final(self).instances@ == old(self).instances@,
            final(self).strategy == old(self).strategy,
            final(self).base_stride == old(self).base_stride,
            final(self).extra_stride == old(self).extra_stride,
            old(self).surface.state is TornDown ==> r == Err::<SurfaceConfig, EngineError>(EngineError::Surface(SurfaceError::TornDown)),
            !(old(self).surface.state is TornDown) ==> r == Ok::<SurfaceConfig, EngineError>(crate::surface::config_for(old(self).surface.format, width, height)),
    {
        match self.surface.configure(width, height) {
            Ok(c) => Ok(c),
            Err(e) => Err(EngineError::Surface(e)),
        }
    }

    /// Releases the surface; the engine draws nothing afterwards.
    pub fn shutdown(&mut self)
        requires
            old(self).wf(),
        ensures
            final(self).wf(),
            final(self).surface.state == SurfaceState::TornDown,
            final(self).surface.format == old(self).surface.format,
            final(self).resources == old(self).resources,
            final(self).instances@ == old(self).instances@,
            final(self).base_stride == old(self).base_stride,
            final(self).extra_stride == old(self).extra_stride,
            final(self).strategy == old(self).strategy,
    {
        self.surface.tear_down();
    }
}

} // verus!

use render_core::engine::{EngineError, RenderEngine};
use render_core::frame::{AcquireOutcome, Command, DrawStrategy, FrameOutcome};
use render_core::geometry::ring_corners;
use render_core::packing::{record_stride, InstanceParams, BASE_RECORD_BYTES};
use render_core::resources::ResourceError;
use render_core::surface::{SurfaceError, SurfaceState};

fn inst(color: [f32; 4], offset: [f32; 2], scale: f32) -> InstanceParams {
    InstanceParams {
        color: color.map(f32::to_bits),
        offset: offset.map(f32::to_bits),
        scale: scale.to_bits(),
    }
}

fn ring_positions(n: usize) -> Vec<u32> {
    let mut out = Vec::new();
    for c in ring_corners(n) {
        let angle = c.step as f32 * std::f32::consts::PI * 2.0 / n as f32;
        let r = if c.outer { 0.5f32 } else { 0.25 };
        out.push((angle.cos() * r).to_bits());
        out.push((angle.sin() * r).to_bits());
    }
    out
}

fn word(b: &[u8], i: usize) -> u32 {
    u32::from_ne_bytes([b[4 * i], b[4 * i + 1], b[4 * i + 2], b[4 * i + 3]])
}

fn scales_over(e: &RenderEngine, aspect: f32) -> Vec<u32> {
    e.instances.iter().map(|p| (f32::from_bits(p.scale) / aspect).to_bits()).collect()
}

fn commands(o: FrameOutcome) -> Vec<Command> {
    match o {
        FrameOutcome::Rendered { commands } => commands,
        FrameOutcome::Skipped { .. } => panic!("frame skipped"),
    }
}

fn draws(cmds: &[Command]) -> Vec<(u32, u32)> {
    cmds.iter()
        .filter_map(|c| match c {
            Command::Draw { vertices, instances } => Some((*vertices, *instances)),
            _ => None,
        })
        .collect()
}

struct Lcg(u64);

impl Lcg {
    fn next(&mut self, min: f32, max: f32) -> f32 {
        self.0 = self.0.wrapping_mul(6364136223846793005).wrapping_add(1442695040888963407);
        let unit = (self.0 >> 40) as f32 / (1u64 << 24) as f32;
        min + unit * (max - min)
    }
}

#[test]
fn single_instance_frame_records_scale_and_one_draw() {
    let ps = vec![inst([1.0, 0.0, 0.0, 1.0], [0.0, 0.0], 0.3)];
    let mut e = RenderEngine::new_instanced(&vec![true], 0, ps, &ring_positions(24)).unwrap();
    e.handle_resize(600, 600).unwrap();
    let sx = scales_over(&e, 600.0 / 600.0);
    let cmds = commands(e.render_frame(AcquireOutcome::Ready, 600, 600, &sx));
    assert_eq!(draws(&cmds), vec![(144, 1)]);
    let extra = &e.resources.contents[1];
    assert_eq!(f32::from_bits(word(extra, 0)), 0.3);
    assert_eq!(f32::from_bits(word(extra, 1)), 0.3);
    let base = &e.resources.contents[0];
    assert_eq!(f32::from_bits(word(base, 0)), 1.0);
    assert_eq!(f32::from_bits(word(base, 3)), 1.0);
}

#[test]
fn hundred_instances_one_upload_one_draw() {
    let mut rng = Lcg(7);
    let mut ps = Vec::new();
    for _ in 0..100 {
        let color = [rng.next(0.0, 1.0), rng.next(0.0, 1.0), rng.next(0.0, 1.0), 1.0];
        let offset = [rng.next(-0.9, 0.9), rng.next(-0.9, 0.9)];
        ps.push(inst(color, offset, rng.next(0.2, 0.5)));
    }
    let mut e = RenderEngine::new_instanced(&vec![false, true], 256, ps, &ring_positions(24)).unwrap();
    let aligned = record_stride(BASE_RECORD_BYTES, 256) as usize;
    assert_eq!(e.resources.contents[0].len(), 100 * aligned);
    e.handle_resize(800, 400).unwrap();
    let sx = scales_over(&e, 2.0);
    let cmds = commands(e.render_frame(AcquireOutcome::Ready, 800, 400, &sx));
    assert_eq!(draws(&cmds), vec![(144, 100)]);
    let uploads: Vec<&Command> = cmds.iter().filter(|c| matches!(c, Command::WriteBuffer { .. })).collect();
    assert_eq!(uploads.len(), 1);
    assert_eq!(*uploads[0], Command::WriteBuffer { buffer: 1, offset: 0, len: 100 * 256 });
    let scale = f32::from_bits(e.instances[42].scale);
    assert_eq!(f32::from_bits(word(&e.resources.contents[1], 42 * 64)), scale / 2.0);
    assert_eq!(f32::from_bits(word(&e.resources.contents[1], 42 * 64 + 1)), scale);
}

#[test]
fn failed_acquire_skips_without_commands() {
    let ps = vec![inst([1.0, 0.0, 0.0, 1.0], [0.0, 0.0], 0.3)];
    let mut e = RenderEngine::new_instanced(&vec![true], 0, ps, &ring_positions(4)).unwrap();
    e.handle_resize(100, 100).unwrap();
    let before = e.resources.contents.clone();
    let sx = scales_over(&e, 1.0);
    assert!(matches!(e.render_frame(AcquireOutcome::Outdated, 100, 100, &sx), FrameOutcome::Skipped { reconfigure: true }));
    assert!(matches!(e.render_frame(AcquireOutcome::Lost, 100, 100, &sx), FrameOutcome::Skipped { reconfigure: true }));
    assert!(matches!(e.render_frame(AcquireOutcome::Timeout, 100, 100, &sx), FrameOutcome::Skipped { reconfigure: false }));
    assert_eq!(e.resources.contents, before);
}

#[test]
fn unconfigured_surface_skips_frame() {
    let mut e = RenderEngine::new_triangle(&vec![true], 0).unwrap();
    assert!(matches!(e.render_frame(AcquireOutcome::Ready, 10, 10, &vec![]), FrameOutcome::Skipped { reconfigure: true }));
}

#[test]
fn stale_size_skips_until_resized() {
    let mut e = RenderEngine::new_triangle(&vec![true], 0).unwrap();
    e.handle_resize(640, 480).unwrap();
    assert!(matches!(e.render_frame(AcquireOutcome::Ready, 800, 600, &vec![]), FrameOutcome::Skipped { reconfigure: true }));
    e.handle_resize(800, 600).unwrap();
    assert!(matches!(e.render_frame(AcquireOutcome::Ready, 800, 600, &vec![]), FrameOutcome::Rendered { .. }));
}

#[test]
fn triangle_frame_sequence() {
    let mut e = RenderEngine::new_triangle(&vec![false], 0).unwrap();
    e.handle_resize(640, 480).unwrap();
    let cmds = commands(e.render_frame(AcquireOutcome::Ready, 640, 480, &vec![]));
    assert_eq!(
        cmds,
        vec![
            Command::BeginPass,
            Command::SetPipeline,
            Command::Draw { vertices: 3, instances: 1 },
            Command::EndPass,
            Command::Submit,
            Command::PreNotify,
            Command::Present,
        ]
    );
}

#[test]
fn textured_quad_binds_sampler_and_texture() {
    let img = image::RgbaImage::from_raw(5, 7, vec![200; 140]).unwrap();
    let mut out = std::io::Cursor::new(Vec::new());
    img.write_to(&mut out, image::ImageFormat::Png).unwrap();
    let (mut e, up) = RenderEngine::new_textured(&vec![true], 0, &out.into_inner()).unwrap();
    assert_eq!((up.width, up.height, up.bytes_per_row), (5, 7, 20));
    assert_eq!(e.resources.bind_groups[0].len(), 2);
    e.handle_resize(64, 64).unwrap();
    let cmds = commands(e.render_frame(AcquireOutcome::Ready, 64, 64, &vec![]));
    assert_eq!(cmds[2], Command::SetBindGroup { slot: 0, group: 0 });
    assert_eq!(cmds[3], Command::Draw { vertices: 6, instances: 1 });
    assert_eq!(cmds.len(), 8);
}

#[test]
fn textured_quad_refuses_undecodable_image() {
    assert!(matches!(
        RenderEngine::new_textured(&vec![true], 0, &[1, 2, 3]),
        Err(EngineError::Resource(ResourceError::Undecodable))
    ));
}

#[test]
fn uniform_per_instance_draws_each_instance() {
    let ps = vec![
        inst([1.0, 0.0, 0.0, 1.0], [0.0, 0.0], 0.2),
        inst([0.0, 1.0, 0.0, 1.0], [0.5, 0.5], 0.4),
        inst([0.0, 0.0, 1.0, 1.0], [-0.5, 0.5], 0.5),
    ];
    let mut e = RenderEngine::new_uniform_per_instance(&vec![true], 0, ps).unwrap();
    assert_eq!(e.resources.contents.len(), 6);
    e.handle_resize(200, 100).unwrap();
    let sx = scales_over(&e, 2.0);
    let cmds = commands(e.render_frame(AcquireOutcome::Ready, 200, 100, &sx));
    assert_eq!(cmds[0], Command::WriteBuffer { buffer: 1, offset: 0, len: 32 });
    assert_eq!(cmds[2], Command::WriteBuffer { buffer: 5, offset: 0, len: 32 });
    assert_eq!(cmds[5], Command::SetBindGroup { slot: 0, group: 0 });
    assert_eq!(cmds[9], Command::SetBindGroup { slot: 0, group: 2 });
    assert_eq!(draws(&cmds), vec![(3, 1), (3, 1), (3, 1)]);
    assert_eq!(cmds.len(), 3 + 2 + 6 + 4);
    assert_eq!(f32::from_bits(word(&e.resources.contents[3], 0)), 0.2);
    assert_eq!(f32::from_bits(word(&e.resources.contents[3], 1)), 0.4);
    assert!(matches!(e.strategy, DrawStrategy::UniformPerInstance { .. }));
}

#[test]
fn instanced_engine_errors() {
    let one = vec![inst([0.0; 4], [0.0; 2], 0.3)];
    assert!(matches!(
        RenderEngine::new_instanced(&vec![], 0, one.clone(), &ring_positions(2)),
        Err(EngineError::Surface(SurfaceError::NoFormats))
    ));
    assert!(matches!(
        RenderEngine::new_instanced(&vec![true], 0, one.clone(), &vec![0, 0, 0]),
        Err(EngineError::GeometryMismatch)
    ));
    assert!(matches!(
        RenderEngine::new_instanced(&vec![true], 0, vec![], &ring_positions(2)),
        Err(EngineError::Resource(ResourceError::BufferTooSmall))
    ));
    assert!(matches!(
        RenderEngine::new_instanced(&vec![true], 0, one, &vec![]),
        Err(EngineError::Resource(ResourceError::BufferTooSmall))
    ));
}

#[test]
fn resize_after_shutdown_is_refused() {
    let mut e = RenderEngine::new_triangle(&vec![true], 0).unwrap();
    e.handle_resize(10, 10).unwrap();
    e.handle_resize(30, 40).unwrap();
    match e.surface.state {
        SurfaceState::Configured(c) => assert_eq!((c.width, c.height), (30, 40)),
        _ => panic!("surface not configured"),
    }
    e.shutdown();
    assert_eq!(e.handle_resize(50, 50), Err(EngineError::Surface(SurfaceError::TornDown)));
    assert!(matches!(e.render_frame(AcquireOutcome::Ready, 30, 40, &vec![]), FrameOutcome::Skipped { reconfigure: false }));
    assert!(matches!(e.render_frame(AcquireOutcome::Outdated, 30, 40, &vec![]), FrameOutcome::Skipped { reconfigure: false }));
}

#[test]
fn triangle_engine_keeps_alignment_and_strides() {
    let e = RenderEngine::new_triangle(&vec![false, false], 256).unwrap();
    assert_eq!(e.resources.alignment, 256);
    assert_eq!((e.base_stride, e.extra_stride), (256, 256));
    assert_eq!(e.surface.format, 0);
    let small = RenderEngine::new_triangle(&vec![true], 4).unwrap();
    assert_eq!((small.base_stride, small.extra_stride), (32, 32));
}

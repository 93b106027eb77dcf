use render_core::pipeline::{pipeline_state, Blend, CullMode, FrontFace, PipelineState, PolygonMode, Topology};

#[test]
fn pipeline_state_is_fixed_but_for_the_format() {
    let s = pipeline_state(3);
    assert_eq!(
        s,
        PipelineState {
            topology: Topology::TriangleList,
            front_face: FrontFace::Ccw,
            cull_mode: CullMode::NoCulling,
            polygon_mode: PolygonMode::Fill,
            blend: Blend::AlphaBlending,
            color_format: 3,
        }
    );
    assert_eq!(pipeline_state(0).color_format, 0);
}

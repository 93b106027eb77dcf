use vstd::prelude::*;

verus! {

#[derive(Clone, Copy, Debug, PartialEq, Eq, Structural)]
pub enum Topology {
    PointList,
    LineList,
    LineStrip,
    TriangleList,
    TriangleStrip,
}

#[derive(Clone, Copy, Debug, PartialEq, Eq, Structural)]
pub enum FrontFace {
    Ccw,
    Cw,
}

#[derive(Clone, Copy, Debug, PartialEq, Eq, Structural)]
pub enum CullMode {
    NoCulling,
    Front,
    Back,
}

#[derive(Clone, Copy, Debug, PartialEq, Eq, Structural)]
pub enum PolygonMode {
    Fill,
    Line,
    Point,
}

#[derive(Clone, Copy, Debug, PartialEq, Eq, Structural)]
pub enum Blend {
    Replace,
    AlphaBlending,
}

/// The fixed state of the engine's one render pipeline. The vertex and
/// fragment stages come from one shader source, entered at `vs_main` and
/// `fs_main`.
#[derive(Clone, Copy, Debug, PartialEq, Eq, Structural)]
pub struct PipelineState {
    pub topology: Topology,
    pub front_face: FrontFace,
    pub cull_mode: CullMode,
    pub polygon_mode: PolygonMode,
    pub blend: Blend,
    /// The single colour target's format, an index into the surface's
    /// capability list.
    pub color_format: usize,
}

pub open spec fn pipeline_state_spec(color_format: usize) -> PipelineState {
    PipelineState {
        topology: Topology::TriangleList,
        front_face: FrontFace::Ccw,
        cull_mode: CullMode::NoCulling,
        polygon_mode: PolygonMode::Fill,
        blend: Blend::AlphaBlending,
        color_format,
    }
}

/// The pipeline state for a colour target of format `color_format`:
/// triangle lists, counter-clockwise front faces, no culling, filled
/// polygons and standard alpha blending.
pub fn pipeline_state(color_format: usize) -> (r: PipelineState)
    ensures
        r == pipeline_state_spec(color_format),
{
    PipelineState {
        topology: Topology::TriangleList,
        front_face: FrontFace::Ccw,
        cull_mode: CullMode::NoCulling,
        polygon_mode: PolygonMode::Fill,
        blend: Blend::AlphaBlending,
        color_format,
    }
}

} // verus!

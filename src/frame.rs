use vstd::prelude::*;

verus! {

/// One step of a frame, in the order the device must see it.
#[derive(Clone, Copy, Debug, PartialEq, Eq, Structural)]
pub enum Command {
    /// Queue bytes `0..len` of the buffer's mirror at `offset`.
    WriteBuffer { buffer: usize, offset: u64, len: u64 },
    /// Begin the render pass on the acquired image, clearing it.
    BeginPass,
    SetPipeline,
    SetBindGroup { slot: u32, group: usize },
    Draw { vertices: u32, instances: u32 },
    EndPass,
    Submit,
    /// Tell the window that content is about to be presented.
    PreNotify,
    Present,
}

/// How a surface image request ended.
#[derive(Clone, Copy, Debug, PartialEq, Eq, Structural)]
pub enum AcquireOutcome {
    Ready,
    Timeout,
    Outdated,
    Lost,
    OutOfMemory,
    Other,
}

/// How the instances are drawn, with the handles each way needs.
#[derive(Clone, Debug)]
pub enum DrawStrategy {
    /// One triangle from the vertex stage alone.
    Triangle,
    /// One textured quad: a sampler and a texture in one bind group.
    TexturedQuad { bind_group: usize },
    /// One uniform buffer pair and bind group per instance, one draw each.
    UniformPerInstance { bind_groups: Vec<usize>, extra_buffers: Vec<usize>, vertex_count: u32 },
    /// All instances in storage buffers, drawn by one instanced draw.
    Instanced { bind_group: usize, extra_buffer: usize, vertex_count: u32 },
}

/// What a frame came to.
#[derive(Clone, Debug)]
pub enum FrameOutcome {
    /// No image was available: nothing was recorded or submitted. Where
    /// `reconfigure` holds the surface must be configured again first.
    Skipped { reconfigure: bool },
    Rendered { commands: Vec<Command> },
}

pub open spec fn pass_end() -> Seq<Command> {
    seq![Command::EndPass, Command::Submit, Command::PreNotify, Command::Present]
}

/// The per-instance uploads of the uniform strategy.
pub open spec fn uniform_uploads(extra_buffers: Seq<usize>, stride: u64) -> Seq<Command> {
    Seq::new(extra_buffers.len(), |i: int| Command::WriteBuffer { buffer: extra_buffers[i], offset: 0, len: stride })
}

/// The per-instance bind and draw pairs of the uniform strategy.
pub open spec fn uniform_draws(bind_groups: Seq<usize>, vertex_count: u32) -> Seq<Command> {
    Seq::new(2 * bind_groups.len(), |j: int|
        if j % 2 == 0 {
            Command::SetBindGroup { slot: 0, group: bind_groups[j / 2] }
        } else {
            Command::Draw { vertices: vertex_count, instances: 1 }
        })
}

/// The commands of a frame for `n` instances whose per-frame records are
/// `stride` bytes each: uploads first, then one pass with the pipeline bound,
/// then submit, notify and present.
pub open spec fn frame_commands_spec(s: DrawStrategy, n: u32, stride: u64) -> Seq<Command> {
    match s {
        DrawStrategy::Triangle => seq![
            Command::BeginPass,
            Command::SetPipeline,
            Command::Draw { vertices: 3, instances: 1 },
        ] + pass_end(),
        DrawStrategy::TexturedQuad { bind_group } => seq![
            Command::BeginPass,
            Command::SetPipeline,
            Command::SetBindGroup { slot: 0, group: bind_group },
            Command::Draw { vertices: 6, instances: 1 },
        ] + pass_end(),
        DrawStrategy::UniformPerInstance { bind_groups, extra_buffers, vertex_count } =>
            uniform_uploads(extra_buffers@, stride)
            + seq![Command::BeginPass, Command::SetPipeline]
            + uniform_draws(bind_groups@, vertex_count)
            + pass_end(),
        DrawStrategy::Instanced { bind_group, extra_buffer, vertex_count } => seq![
            Command::WriteBuffer { buffer: extra_buffer, offset: 0, len: (n * stride) as u64 },
            Command::BeginPass,
            Command::SetPipeline,
            Command::SetBindGroup { slot: 0, group: bind_group },
            Command::Draw { vertices: vertex_count, instances: n },
        ] + pass_end(),
    }
}

fn push_pass_end(cmds: &mut Vec<Command>)
    ensures
        final(cmds)@ == old(cmds)@ + pass_end(),
{
    cmds.push(Command::EndPass);
    cmds.push(Command::Submit);
    cmds.push(Command::PreNotify);
    cmds.push(Command::Present);
    assert(final(cmds)@ =~= old(cmds)@ + pass_end());
}

/// The commands of one frame, once an image is in hand.
pub fn frame_commands(s: &DrawStrategy, n: u32, stride: u64) -> (r: Vec<Command>)
    requires
        n * stride <= u64::MAX,
    ensures
        r@ == frame_commands_spec(*s, n, stride),
{
    let mut cmds: Vec<Command> = Vec::new();
    match s {
        DrawStrategy::Triangle => {
            cmds.push(Command::BeginPass);
            cmds.push(Command::SetPipeline);
            cmds.push(Command::Draw { vertices: 3, instances: 1 });
        },
        DrawStrategy::TexturedQuad { bind_group } => {
            cmds.push(Command::BeginPass);
            cmds.push(Command::SetPipeline);
            cmds.push(Command::SetBindGroup { slot: 0, group: *bind_group });
            cmds.push(Command::Draw { vertices: 6, instances: 1 });
        },
        DrawStrategy::UniformPerInstance { bind_groups, extra_buffers, vertex_count } => {
            let mut i: usize = 0;
            while i < extra_buffers.len()
                invariant
                    i <= extra_buffers@.len(),
                    cmds@ == uniform_uploads(extra_buffers@, stride).take(i as int),
                decreases extra_buffers@.len() - i,
            {
                cmds.push(Command::WriteBuffer { buffer: extra_buffers[i], offset: 0, len: stride });
                i = i + 1;
                assert(cmds@ =~= uniform_uploads(extra_buffers@, stride).take(i as int));
            }
            assert(cmds@ =~= uniform_uploads(extra_buffers@, stride));
            cmds.push(Command::BeginPass);
            cmds.push(Command::SetPipeline);
            let ghost head = cmds@;
            assert(head =~= uniform_uploads(extra_buffers@, stride) + seq![Command::BeginPass, Command::SetPipeline]);
            let mut g: usize = 0;
            while g < bind_groups.len()
                invariant
                    g <= bind_groups@.len(),
                    cmds@ == head + uniform_draws(bind_groups@, *vertex_count).take(2 * g),
                decreases bind_groups@.len() - g,
            {
                cmds.push(Command::SetBindGroup { slot: 0, group: bind_groups[g] });
                cmds.push(Command::Draw { vertices: *vertex_count, instances: 1 });
                proof {
                    assert((2 * g) % 2 == 0 && (2 * g) / 2 == g);
                    assert((2 * g + 1) % 2 == 1);
                }
                g = g + 1;
                assert(cmds@ =~= head + uniform_draws(bind_groups@, *vertex_count).take(2 * g));
            }
            assert(uniform_draws(bind_groups@, *vertex_count).take(2 * g) =~= uniform_draws(bind_groups@, *vertex_count));
        },
        DrawStrategy::Instanced { bind_group, extra_buffer, vertex_count } => {
            cmds.push(Command::WriteBuffer { buffer: *extra_buffer, offset: 0, len: (n as u64) * stride });
            cmds.push(Command::BeginPass);
            cmds.push(Command::SetPipeline);
            cmds.push(Command::SetBindGroup { slot: 0, group: *bind_group });
            cmds.push(Command::Draw { vertices: *vertex_count, instances: n });
        },
    }
    push_pass_end(&mut cmds);
    assert(cmds@ =~= frame_commands_spec(*s, n, stride));
    cmds
}

} // verus!

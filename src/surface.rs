use vstd::prelude::*;

verus! {

/// How many frames the presentation engine may queue before blocking.
pub const MAX_FRAME_LATENCY: u32 = 2;

/// A surface configuration: the chosen format (an index into the surface's
/// capability list), the drawable size, vertical sync, and the frame latency.
#[derive(Clone, Copy, Debug, PartialEq, Eq, Structural)]
pub struct SurfaceConfig {
    pub format: usize,
    pub width: u32,
    pub height: u32,
    pub vsync: bool,
    pub max_frame_latency: u32,
}

#[derive(Clone, Copy, Debug, PartialEq, Eq, Structural)]
pub enum SurfaceState {
    Unconfigured,
    Configured(SurfaceConfig),
    TornDown,
}

#[derive(Clone, Copy, Debug, PartialEq, Eq, Structural)]
pub enum SurfaceError {
    /// The surface reports no supported format.
    NoFormats,
    /// The surface has been released.
    TornDown,
}

/// Index `i` is the format to prefer among formats whose sRGB flags are
/// `srgb`: the first sRGB-capable one, else the first one.
pub open spec fn is_preferred_format(srgb: Seq<bool>, i: int) -> bool {
    &&& 0 <= i < srgb.len()
    &&& {
        ||| srgb[i] && forall|j: int| 0 <= j < i ==> !#[trigger] srgb[j]
        ||| i == 0 && forall|j: int| 0 <= j < srgb.len() ==> !#[trigger] srgb[j]
    }
}

/// Picks the preferred format from the capability list's sRGB flags; none
/// where the list is empty.
pub fn select_format(srgb: &Vec<bool>) -> (r: Option<usize>)
    ensures
        r is None <==> srgb@.len() == 0,
        r matches Some(i) ==> is_preferred_format(srgb@, i as int),
{
    let mut i: usize = 0;
    while i < srgb.len()
        invariant
            i <= srgb@.len(),
            forall|j: int| 0 <= j < i ==> !#[trigger] srgb@[j],
        decreases srgb@.len() - i,
    {
        if srgb[i] {
            return Some(i);
        }
        i = i + 1;
    }
    if srgb.len() == 0 {
        None
    } else {
        Some(0)
    }
}

/// The configuration for format `format` at the given size.
pub open spec fn config_for(format: usize, width: u32, height: u32) -> SurfaceConfig {
    SurfaceConfig { format, width, height, vsync: true, max_frame_latency: MAX_FRAME_LATENCY }
}

/// The state after configuring at the given size: a released surface stays
/// released, any other becomes configured for exactly that size.
pub open spec fn configure_spec(s: SurfaceState, format: usize, width: u32, height: u32) -> SurfaceState {
    if s is TornDown {
        s
    } else {
        SurfaceState::Configured(config_for(format, width, height))
    }
}

/// The state after configuring at each size of `sizes` in turn.
pub open spec fn resize_all(s: SurfaceState, format: usize, sizes: Seq<(u32, u32)>) -> SurfaceState
    decreases sizes.len(),
{
    if sizes.len() == 0 {
        s
    } else {
        resize_all(configure_spec(s, format, sizes[0].0, sizes[0].1), format, sizes.drop_first())
    }
}

/// Resizing a live surface any number of times in sequence leaves it
/// configured for the last size, whatever came before.
pub proof fn lemma_last_resize_wins(s: SurfaceState, format: usize, sizes: Seq<(u32, u32)>)
    requires
        sizes.len() > 0,
        !(s is TornDown),
    ensures
        resize_all(s, format, sizes) == SurfaceState::Configured(config_for(format, sizes.last().0, sizes.last().1)),
    decreases sizes.len(),
{
    let next = configure_spec(s, format, sizes[0].0, sizes[0].1);
    if sizes.len() > 1 {
        lemma_last_resize_wins(next, format, sizes.drop_first());
        assert(sizes.drop_first().last() == sizes.last());
    } else {
        assert(sizes.drop_first().len() == 0);
        assert(resize_all(next, format, sizes.drop_first()) == next);
    }
}

/// The presentation surface of one window, with the format chosen for it.
pub struct SurfaceController {
    pub format: usize,
    pub state: SurfaceState,
}

impl SurfaceController {
    /// A controller for a surface whose formats have the sRGB flags `srgb`;
    /// unconfigured, with the preferred format chosen.
    pub fn new(srgb: &Vec<bool>) -> (r: Result<SurfaceController, SurfaceError>)
        ensures
            srgb@.len() == 0 <==> r == Err::<SurfaceController, SurfaceError>(SurfaceError::NoFormats),
            srgb@.len() > 0 <==> r is Ok,
            r matches Ok(c) ==> is_preferred_format(srgb@, c.format as int) && c.state == SurfaceState::Unconfigured,
    {
        match select_format(srgb) {
            Some(format) => Ok(SurfaceController { format, state: SurfaceState::Unconfigured }),
            None => Err(SurfaceError::NoFormats),
        }
    }

    /// Configures the surface for the window's current size and returns the
    /// configuration to bind; a released surface is refused.
    pub fn configure(&mut self, width: u32, height: u32) -> (r: Result<SurfaceConfig, SurfaceError>)
        ensures
            final(self).format == old(self).format,
            final(self).state == configure_spec(old(self).state, old(self).format, width, height),
            old(self).state is TornDown ==> r == Err::<SurfaceConfig, SurfaceError>(SurfaceError::TornDown),
            !(old(self).state is TornDown) ==> r == Ok::<SurfaceConfig, SurfaceError>(config_for(old(self).format, width, height)),
    {
        if let SurfaceState::TornDown = self.state {
            return Err(SurfaceError::TornDown);
        }
        let config = SurfaceConfig {
            format: self.format,
            width,
            height,
            vsync: true,
            max_frame_latency: MAX_FRAME_LATENCY,
        };
        self.state = SurfaceState::Configured(config);
        Ok(config)
    }

    /// Whether the surface must be configured before drawing to a window of
    /// this size: it is not configured, or configured for another size.
    pub fn needs_configure(&self, width: u32, height: u32) -> (r: bool)
        ensures
            r == !(self.state matches SurfaceState::Configured(c) && c.width == width && c.height == height),
    {
        match self.state {
            SurfaceState::Configured(c) => !(c.width == width && c.height == height),
            _ => true,
        }
    }

    /// Releases the surface; nothing can be configured on it afterwards.
    pub fn tear_down(&mut self)
        ensures
            final(self).format == old(self).format,
            final(self).state == SurfaceState::TornDown,
    {
        self.state = SurfaceState::TornDown;
    }
}

} // verus!

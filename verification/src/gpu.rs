//! The GPU drawing strategy, as far as it is bookkeeping.
//!
//! With this strategy the GPU computes the gradient itself. It learns the
//! size of the surface and a progress value through a uniform buffer, and
//! the colors of the indexed icons through a storage buffer. This module
//! keeps what the two buffers hold and decides what to do when a surface
//! has no texture ready to draw on. Talking to the device is the caller's
//! part.

use vstd::prelude::*;
use crate::color::Oklab;

verus! {

/// Size of the uniform buffer in bytes: width, height, progress and one
/// word of padding, four bytes each.
pub const UNIFORM_BYTES: u64 = 16;

/// Offset of the progress value within the uniform buffer.
pub const PROGRESS_OFFSET: u64 = 8;

/// Size of one color in the storage buffer: three components and one word
/// of padding, four bytes each.
pub const COLOR_RECORD_BYTES: u64 = 16;

/// Vertices of one draw: two triangles that cover the surface.
pub const VERTEX_COUNT: u32 = 6;

/// What the uniform buffer of a surface holds.
#[derive(Clone, Copy, Debug, PartialEq, Eq, Structural)]
pub struct InputUniform {
    /// Width of the surface in pixels.
    pub width: u32,
    /// Height of the surface in pixels.
    pub height: u32,
    /// Progress of the reveal transition, in millionths.
    pub voronoi_progress: u32,
}

/// What asking a surface for its next texture gave.
#[derive(Clone, Copy, Debug, PartialEq, Eq, Structural)]
pub enum Acquired {
    /// A texture to draw on.
    Texture,
    /// The wait for a texture timed out.
    Timeout,
    /// The surface changed since it was configured.
    Outdated,
    /// The swap chain was lost.
    Lost,
    /// No memory for a new frame.
    OutOfMemory,
    /// Any other failure.
    Other,
}

/// The next step of a draw.
#[derive(Clone, Copy, Debug, PartialEq, Eq, Structural)]
pub enum DrawStep {
    /// Draw `VERTEX_COUNT` vertices on the texture and present it.
    Render,
    /// Configure the surface again at this size, then ask once more.
    Reconfigure { width: u32, height: u32 },
    /// Give up: the surface cannot be drawn on.
    Abort,
}

/// The step that follows an attempt to get a texture. A surface that is
/// outdated or lost is configured again, once, if it has a size; every other
/// failure ends the draw.
pub open spec fn draw_step(uniform: InputUniform, acquired: Acquired, retried: bool) -> DrawStep {
    if acquired == Acquired::Texture {
        DrawStep::Render
    } else if (acquired == Acquired::Outdated || acquired == Acquired::Lost) && !retried
        && uniform.width > 0 && uniform.height > 0 {
        DrawStep::Reconfigure { width: uniform.width, height: uniform.height }
    } else {
        DrawStep::Abort
    }
}

/// What the GPU holds for the whole application: the colors of the indexed
/// icons, in index order.
#[derive(Debug)]
pub struct AppGpuState {
    desktop_colors: Vec<Oklab>,
}

impl View for AppGpuState {
    type V = Seq<Oklab>;

    closed spec fn view(&self) -> Seq<Oklab> {
        self.desktop_colors@
    }
}

impl AppGpuState {
    /// Takes the colors to be uploaded.
    pub fn new(desktop_colors: Vec<Oklab>) -> (state: AppGpuState)
        ensures
            state@ == desktop_colors@,
    {
        AppGpuState { desktop_colors }
    }

    /// The colors, in the order of their records in the storage buffer.
    pub fn desktop_colors(&self) -> (colors: &Vec<Oklab>)
        ensures
            colors@ == self@,
    {
        &self.desktop_colors
    }

    /// Size of the storage buffer in bytes, or `None` if it cannot be
    /// counted in 64 bits.
    pub fn storage_bytes(&self) -> (bytes: Option<u64>)
        ensures
            bytes is Some <==> self@.len() * COLOR_RECORD_BYTES <= u64::MAX,
            bytes matches Some(n) ==> n == self@.len() * COLOR_RECORD_BYTES,
    {
        (self.desktop_colors.len() as u64).checked_mul(COLOR_RECORD_BYTES)
    }
}

/// What the GPU holds for one surface: the contents of its uniform buffer.
#[derive(Clone, Copy, Debug)]
pub struct SurfaceGpuState {
    uniform: InputUniform,
}

impl View for SurfaceGpuState {
    type V = InputUniform;

    closed spec fn view(&self) -> InputUniform {
        self.uniform
    }
}

impl SurfaceGpuState {
    /// The state of a surface that was just made: no size, no progress.
    pub fn new() -> (state: SurfaceGpuState)
        ensures
            state@ == (InputUniform { width: 0, height: 0, voronoi_progress: 0 }),
    {
        SurfaceGpuState { uniform: InputUniform { width: 0, height: 0, voronoi_progress: 0 } }
    }

    /// The contents of the uniform buffer.
    pub fn uniform(&self) -> (uniform: InputUniform)
        ensures
            uniform == self@,
    {
        self.uniform
    }

    /// Gives the surface a new size. The whole uniform buffer is written
    /// anew, so the progress starts over at zero. Returns whether the
    /// surface can be configured at this size: neither side may be empty.
    pub fn resize(&mut self, width: u32, height: u32) -> (configurable: bool)
        ensures
            final(self)@ == (InputUniform { width, height, voronoi_progress: 0 }),
            configurable == (width > 0 && height > 0),
    {
        self.uniform = InputUniform { width, height, voronoi_progress: 0 };
        width > 0 && height > 0
    }

    /// Sets the progress of the reveal transition and leaves the size alone.
    /// Only the bytes at `PROGRESS_OFFSET` of the uniform buffer change.
    pub fn set_voronoi_progress(&mut self, voronoi_progress: u32)
        ensures
            final(self)@ == (InputUniform { voronoi_progress, ..old(self)@ }),
    {
        self.uniform = InputUniform { voronoi_progress, ..self.uniform };
    }

    /// Decides the next step of a draw from what asking for a texture gave.
    /// `retried` says whether the surface was already configured again
    /// during this draw.
    pub fn draw(&self, acquired: Acquired, retried: bool) -> (step: DrawStep)
        ensures
            step == draw_step(self@, acquired, retried),
    {
        match acquired {
            Acquired::Texture => DrawStep::Render,
            Acquired::Outdated | Acquired::Lost => {
                if !retried && self.uniform.width > 0 && self.uniform.height > 0 {
                    DrawStep::Reconfigure { width: self.uniform.width, height: self.uniform.height }
                } else {
                    DrawStep::Abort
                }
            },
            _ => DrawStep::Abort,
        }
    }
}

} // verus!

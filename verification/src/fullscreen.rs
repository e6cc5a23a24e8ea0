//! Fullscreen passes: the shared vertex stage of a fullscreen triangle and the
//! draw that covers the target with it.
use std::borrow::Cow;
use std::ops::Range;
use vstd::prelude::*;
use crate::text::concat3;

verus! {

/// The vertex stage shared by every fullscreen pass: one triangle that covers
/// the target, with `uv` running from 0 to 1 across it and `y` pointing down.
pub const FULLSCREEN_COMMON: &'static str = "struct FullscreenOutput {
    @builtin(position) position: vec4<f32>,
    @location(0) uv: vec2<f32>,
};

@vertex
fn vs_fullscreen(@builtin(vertex_index) vertex_index: u32) -> FullscreenOutput {
    let uv = vec2<f32>(f32((vertex_index << 1u) & 2u), f32(vertex_index & 2u));
    var out: FullscreenOutput;
    out.position = vec4<f32>(uv.x * 2 - 1, 1 - uv.y * 2, 0, 1);
    out.uv = uv;
    return out;
}
";

/// The source of a fullscreen shader: the shared vertex stage, a line break,
/// then the fragment stage.
pub fn compose_fullscreen_shader(fragment_source: &str) -> (r: Cow<'static, str>)
    ensures
        r@ == FULLSCREEN_COMMON@ + "\n"@ + fragment_source@,
{
    Cow::Owned(concat3(FULLSCREEN_COMMON, "\n", fragment_source))
}

/// Stateless fullscreen triangle drawer.
#[derive(Clone, Copy, Debug, PartialEq, Eq, Structural)]
pub struct FullscreenPass;

impl FullscreenPass {
    /// The vertex and instance ranges of the draw: three vertices, one instance.
    pub fn draw_ranges() -> (r: (Range<u32>, Range<u32>))
        ensures
            r.0.start == 0 && r.0.end == 3,
            r.1.start == 0 && r.1.end == 1,
    {
        (0..3, 0..1)
    }
}

} // verus!

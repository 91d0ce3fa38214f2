//! Colors in fixed point: a channel value of `ONE` is full intensity.
use vstd::prelude::*;

verus! {

/// Fixed-point unit: `ONE` stands for an intensity (or an alpha) of 1.
pub const ONE: i32 = 65536;

/// A color as red, green and blue channels in fixed point. A channel may lie
/// outside `[0, ONE]`; every blend clamps its result into that range.
#[derive(Clone, Copy, Debug, PartialEq, Eq, Structural)]
pub struct Color(pub i32, pub i32, pub i32);

/// How a new color is combined into a pixel.
#[derive(Clone, Copy, Debug, PartialEq, Eq, Structural)]
pub enum BlendMode {
    /// `new * alpha`
    Replace,
    /// `old * (1 - alpha) + new * alpha`
    Mix,
    /// `old + new * alpha`
    Add,
}

/// Clamps an integer into `[0, ONE]`.
pub open spec fn clamp_unit(x: int) -> int {
    if x < 0 {
        0
    } else if x > ONE {
        ONE as int
    } else {
        x
    }
}

pub open spec fn channel_ok(x: int) -> bool {
    0 <= x <= ONE
}

/// Every channel lies in `[0, ONE]`.
pub open spec fn color_ok(c: Color) -> bool {
    channel_ok(c.0 as int) && channel_ok(c.1 as int) && channel_ok(c.2 as int)
}

/// The color with each channel clamped into `[0, ONE]`.
pub open spec fn clamp_spec(c: Color) -> Color {
    Color(clamp_unit(c.0 as int) as i32, clamp_unit(c.1 as int) as i32, clamp_unit(c.2 as int) as i32)
}

/// A channel scaled by `alpha` (fixed point), clamped: `clamp(alpha * x)`.
pub open spec fn scale_spec(alpha: int, x: int) -> int {
    clamp_unit((alpha * x) / (ONE as int))
}

/// Each channel scaled by `alpha`, then clamped.
pub open spec fn scaled_spec(c: Color, alpha: int) -> Color {
    Color(
        scale_spec(alpha, c.0 as int) as i32,
        scale_spec(alpha, c.1 as int) as i32,
        scale_spec(alpha, c.2 as int) as i32,
    )
}

/// The channel-wise sum, clamped.
pub open spec fn add_spec(a: Color, b: Color) -> Color {
    Color(
        clamp_unit(a.0 + b.0) as i32,
        clamp_unit(a.1 + b.1) as i32,
        clamp_unit(a.2 + b.2) as i32,
    )
}

/// The result of combining `new` into `prev` under `mode` with weight `alpha`.
pub open spec fn blend_spec(mode: BlendMode, prev: Color, new: Color, alpha: int) -> Color {
    match mode {
        BlendMode::Replace => scaled_spec(new, alpha),
        BlendMode::Mix => add_spec(scaled_spec(prev, ONE - alpha), scaled_spec(new, alpha)),
        BlendMode::Add => add_spec(prev, scaled_spec(new, alpha)),
    }
}

/// The position within one hue turn, times six: a value in `[0, 6 * ONE)`.
pub open spec fn hue_sixths(hue: int) -> int {
    (hue % (ONE as int)) * 6
}

/// The fully saturated color at `hue`, where `ONE` is one full turn of the
/// color wheel starting at red.
pub open spec fn hue_color(hue: int) -> Color {
    let h = hue_sixths(hue);
    let seg = h / (ONE as int);
    let f = (h % (ONE as int)) as i32;
    if seg == 0 {
        Color(ONE, f, 0)
    } else if seg == 1 {
        Color((ONE - f) as i32, ONE, 0)
    } else if seg == 2 {
        Color(0, ONE, f)
    } else if seg == 3 {
        Color(0, (ONE - f) as i32, ONE)
    } else if seg == 4 {
        Color(f, 0, ONE)
    } else {
        Color(ONE, 0, (ONE - f) as i32)
    }
}

/// The 8-bit level of a channel: `floor(clamp(x) * 255 / ONE)`.
pub open spec fn byte_of(x: int) -> u8 {
    (clamp_unit(x) * 255 / (ONE as int)) as u8
}

fn clamp_channel(x: i64) -> (r: i32)
    ensures
        r == clamp_unit(x as int),
{
    if x < 0 {
        0
    } else if x > ONE as i64 {
        ONE
    } else {
        x as i32
    }
}

fn scale_channel(alpha: i64, x: i32) -> (r: i32)
    requires
        -0x8001_0000 <= alpha <= 0x8001_0000,
    ensures
        r == scale_spec(alpha as int, x as int),
{
    proof {
        let xi = x as int;
        assert(-0x8001_0000 * 0x8000_0000 <= alpha * xi <= 0x8001_0000 * 0x8000_0000) by (nonlinear_arith)
            requires -0x8001_0000 <= alpha <= 0x8001_0000, -0x8000_0000 <= xi <= 0x8000_0000;
    }
    let p: i64 = alpha * (x as i64);
    let one: i64 = ONE as i64;
    if p <= 0 {
        proof {
            assert((p as int) / (ONE as int) <= 0) by (nonlinear_arith)
                requires p <= 0;
        }
        0
    } else if p >= one * one {
        proof {
            assert((p as int) / (ONE as int) >= ONE) by (nonlinear_arith)
                requires p >= 65536 * 65536;
        }
        ONE
    } else {
        proof {
            assert(0 <= (p as int) / (ONE as int) < ONE) by (nonlinear_arith)
                requires 0 < p < 65536 * 65536;
        }
        (p / one) as i32
    }
}

impl Color {
    /// The fully saturated color at `hue`; `ONE` is one full turn.
    pub fn from_hue(hue: u64) -> (r: Color)
        ensures
            r == hue_color(hue as int),
            color_ok(r),
    {
        let one: u64 = ONE as u64;
        let h: u64 = (hue % one) * 6;
        let seg: u64 = h / one;
        let f: i32 = (h % one) as i32;
        proof {
            assert(h < 6 * 65536);
            assert(seg < 6) by (nonlinear_arith)
                requires seg == h / 65536, h < 6 * 65536;
        }
        if seg == 0 {
            Color(ONE, f, 0)
        } else if seg == 1 {
            Color((ONE - f) as i32, ONE, 0)
        } else if seg == 2 {
            Color(0, ONE, f)
        } else if seg == 3 {
            Color(0, (ONE - f) as i32, ONE)
        } else if seg == 4 {
            Color(f, 0, ONE)
        } else {
            Color(ONE, 0, (ONE - f) as i32)
        }
    }

    /// The 8-bit red, green and blue levels, each channel clamped first.
    pub fn as_byte_color(&self) -> (r: (u8, u8, u8))
        ensures
            r == (byte_of(self.0 as int), byte_of(self.1 as int), byte_of(self.2 as int)),
    {
        (channel_byte(self.0), channel_byte(self.1), channel_byte(self.2))
    }

    /// Each channel scaled by `alpha` (fixed point), then clamped.
    pub fn scaled(self, alpha: i32) -> (r: Color)
        ensures
            r == scaled_spec(self, alpha as int),
            color_ok(r),
    {
        let a = alpha as i64;
        Color(scale_channel(a, self.0), scale_channel(a, self.1), scale_channel(a, self.2))
    }

    /// The channel-wise sum, clamped.
    pub fn add(self, other: Color) -> (r: Color)
        ensures
            r == add_spec(self, other),
            color_ok(r),
    {
        Color(
            clamp_channel(self.0 as i64 + other.0 as i64),
            clamp_channel(self.1 as i64 + other.1 as i64),
            clamp_channel(self.2 as i64 + other.2 as i64),
        )
    }

    /// Each channel clamped into `[0, ONE]`.
    pub fn clamped(self) -> (r: Color)
        ensures
            r == clamp_spec(self),
            color_ok(r),
    {
        Color(clamp_channel(self.0 as i64), clamp_channel(self.1 as i64), clamp_channel(self.2 as i64))
    }
}

fn channel_byte(x: i32) -> (r: u8)
    ensures
        r == byte_of(x as int),
{
    let c = clamp_channel(x as i64) as i64;
    proof {
        assert(0 <= c * 255 / 65536 <= 255) by (nonlinear_arith)
            requires 0 <= c <= 65536;
    }
    (c * 255 / (ONE as i64)) as u8
}

impl BlendMode {
    /// Combines `new` into `prev` with weight `alpha`; the result is clamped.
    pub fn blend(&self, prev: &Color, new: &Color, alpha: i32) -> (r: Color)
        ensures
            r == blend_spec(*self, *prev, *new, alpha as int),
            color_ok(r),
    {
        match self {
            BlendMode::Replace => new.scaled(alpha),
            BlendMode::Mix => {
                let inv = ONE as i64 - alpha as i64;
                let kept = Color(
                    scale_channel(inv, prev.0),
                    scale_channel(inv, prev.1),
                    scale_channel(inv, prev.2),
                );
                kept.add(new.scaled(alpha))
            },
            BlendMode::Add => prev.add(new.scaled(alpha)),
        }
    }
}

/// An additive blend is clamped into `[0, ONE]` whatever the magnitudes of
/// its inputs.
pub proof fn lemma_add_blend_clamped(prev: Color, new: Color, alpha: int)
    ensures
        color_ok(blend_spec(BlendMode::Add, prev, new, alpha)),
{
}

proof fn lemma_scale_unit(x: int)
    requires
        channel_ok(x),
    ensures
        scale_spec(ONE as int, x) == x,
        scale_spec(0, x) == 0,
{
    assert((65536 * x) / 65536 == x) by (nonlinear_arith);
}

/// Mixing with weight 0 keeps the prior color; with weight `ONE` it gives the
/// new color.
pub proof fn lemma_mix_ends(prev: Color, new: Color)
    requires
        color_ok(prev),
        color_ok(new),
    ensures
        blend_spec(BlendMode::Mix, prev, new, 0) == prev,
        blend_spec(BlendMode::Mix, prev, new, ONE as int) == new,
{
    lemma_scale_unit(prev.0 as int);
    lemma_scale_unit(prev.1 as int);
    lemma_scale_unit(prev.2 as int);
    lemma_scale_unit(new.0 as int);
    lemma_scale_unit(new.1 as int);
    lemma_scale_unit(new.2 as int);
}

} // verus!

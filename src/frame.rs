//! Drawing on a frame: a sequence of pixel colors in strip order.
use vstd::prelude::*;
use crate::color::{blend_spec, clamp_unit, hue_color, BlendMode, Color, ONE};

verus! {

/// Pixels are addressed by a 16-bit index on the wire.
pub const MAX_PIXELS: usize = 65536;

/// The first pixel a line from `from` touches (positions in `ONE` per pixel).
pub open spec fn line_lo(from: int) -> int {
    if from <= 0 {
        0
    } else {
        from / (ONE as int)
    }
}

/// One past the last pixel a line ending at `to` touches, within `len` pixels.
pub open spec fn line_hi(to: int, len: int) -> int {
    let end = if to <= 0 {
        0
    } else {
        (to + ONE - 1) / (ONE as int)
    };
    if end < len {
        end
    } else {
        len
    }
}

/// How much of pixel `i` the line from `from` to `to` covers, in `[-ONE, ONE]`.
pub open spec fn coverage(i: int, from: int, to: int) -> int {
    clamp_unit((i + 1) * ONE - from) + clamp_unit(to - i * ONE) - ONE
}

/// Pixel `i` after drawing a line from `from` to `to` in `col`.
pub open spec fn line_pixel(
    old: Seq<Color>,
    i: int,
    from: int,
    to: int,
    col: Color,
    mode: BlendMode,
) -> Color {
    if line_lo(from) <= i < line_hi(to, old.len() as int) {
        blend_spec(mode, old[i], col, coverage(i, from, to))
    } else {
        old[i]
    }
}

/// Where a rainbow of period `cycle_ms` stands at `time_ms`, as a hue.
pub open spec fn rainbow_phase(time_ms: int, cycle_ms: int) -> int {
    (time_ms % cycle_ms) * ONE / cycle_ms
}

/// The hue of pixel `i` of `len` in a rainbow at phase `phase`: the wheel
/// spread once over the strip, running backwards.
pub open spec fn rainbow_hue(phase: int, i: int, len: int) -> int {
    phase + ONE - i * ONE / len
}

/// The frame after a rainbow at `time_ms` is mixed in with weight `alpha`.
pub open spec fn rainbow_pixel(old: Seq<Color>, i: int, time_ms: int, cycle_ms: int, alpha: int) -> Color {
    blend_spec(
        BlendMode::Mix,
        old[i],
        hue_color(rainbow_hue(rainbow_phase(time_ms, cycle_ms), i, old.len() as int)),
        alpha,
    )
}

/// A frame of `n` black pixels.
pub open spec fn clear_spec(n: nat) -> Seq<Color> {
    Seq::new(n, |i: int| Color(0, 0, 0))
}

/// The frame with `col` mixed into every pixel with weight `alpha`.
pub open spec fn fill_spec(f: Seq<Color>, col: Color, alpha: int) -> Seq<Color> {
    Seq::new(f.len(), |i: int| blend_spec(BlendMode::Mix, f[i], col, alpha))
}

/// The frame with a line from `from` to `to` drawn in `col`.
pub open spec fn line_spec(f: Seq<Color>, from: int, to: int, col: Color, mode: BlendMode) -> Seq<Color> {
    Seq::new(f.len(), |i: int| line_pixel(f, i, from, to, col, mode))
}

/// The frame with a rainbow mixed in.
pub open spec fn rainbow_spec(f: Seq<Color>, time_ms: int, cycle_ms: int, alpha: int) -> Seq<Color> {
    Seq::new(f.len(), |i: int| rainbow_pixel(f, i, time_ms, cycle_ms, alpha))
}

/// Turns every pixel black.
pub fn clear(cols: &mut Vec<Color>)
    ensures
        final(cols)@.len() == old(cols)@.len(),
        forall|i: int| 0 <= i < final(cols)@.len() ==> final(cols)@[i] == Color(0, 0, 0),
        final(cols)@ == clear_spec(old(cols)@.len()),
{
    let mut i: usize = 0;
    while i < cols.len()
        invariant
            i <= cols@.len(),
            cols@.len() == old(cols)@.len(),
            forall|j: int| 0 <= j < i ==> cols@[j] == Color(0, 0, 0),
        decreases cols@.len() - i,
    {
        cols.set(i, Color(0, 0, 0));
        i = i + 1;
    }
    assert(cols@ =~= clear_spec(old(cols)@.len()));
}

/// Mixes `col` into every pixel with weight `alpha`.
pub fn fill(cols: &mut Vec<Color>, col: Color, alpha: i32)
    ensures
        final(cols)@.len() == old(cols)@.len(),
        forall|i: int|
            0 <= i < final(cols)@.len() ==> final(cols)@[i] == blend_spec(
                BlendMode::Mix,
                old(cols)@[i],
                col,
                alpha as int,
            ),
        final(cols)@ == fill_spec(old(cols)@, col, alpha as int),
{
    let mut i: usize = 0;
    while i < cols.len()
        invariant
            i <= cols@.len(),
            cols@.len() == old(cols)@.len(),
            forall|j: int|
                0 <= j < i ==> cols@[j] == blend_spec(BlendMode::Mix, old(cols)@[j], col, alpha as int),
            forall|j: int| i <= j < cols@.len() ==> cols@[j] == old(cols)@[j],
        decreases cols@.len() - i,
    {
        let c = BlendMode::Mix.blend(&cols[i], &col, alpha);
        cols.set(i, c);
        i = i + 1;
    }
    assert(cols@ =~= fill_spec(old(cols)@, col, alpha as int));
}

fn coverage_part(x: i64, lo: i64) -> (r: i64)
    requires
        0 <= lo,
    ensures
        r == clamp_unit(x - lo),
{
    if x <= lo {
        0
    } else if x - lo >= ONE as i64 {
        ONE as i64
    } else {
        x - lo
    }
}

fn pixel_coverage(i: usize, from: i64, to: i64) -> (r: i32)
    requires
        i < MAX_PIXELS,
    ensures
        r == coverage(i as int, from as int, to as int),
{
    proof {
        assert(i * 65536 <= 65536 * 65536) by (nonlinear_arith)
            requires i < 65536;
    }
    let start: i64 = i as i64 * ONE as i64;
    let end: i64 = start + ONE as i64;
    // clamp_unit(end - from)
    let a: i64 = if from >= end {
        0
    } else if from <= start {
        ONE as i64
    } else {
        end - from
    };
    let b: i64 = coverage_part(to, start);
    (a + b - ONE as i64) as i32
}

/// Draws a line from `from` to `to` (positions in `ONE` per pixel) in `col`,
/// weighting each pixel by how much of it the line covers.
pub fn draw_line(cols: &mut Vec<Color>, from: i64, to: i64, col: Color, blend: BlendMode)
    requires
        old(cols)@.len() <= MAX_PIXELS,
    ensures
        final(cols)@.len() == old(cols)@.len(),
        forall|i: int|
            0 <= i < final(cols)@.len() ==> final(cols)@[i] == line_pixel(
                old(cols)@,
                i,
                from as int,
                to as int,
                col,
                blend,
            ),
        final(cols)@ == line_spec(old(cols)@, from as int, to as int, col, blend),
{
    let one: i64 = ONE as i64;
    let lo: usize = if from <= 0 {
        0
    } else {
        let q: i64 = from / one;
        if q >= cols.len() as i64 {
            cols.len()
        } else {
            q as usize
        }
    };
    let hi: usize = if to <= 0 {
        0
    } else {
        let q: i64 = to / one;
        let e: i64 = if to % one != 0 {
            q + 1
        } else {
            q
        };
        proof {
            assert(e == (to + ONE - 1) / (ONE as int));
        }
        if e >= cols.len() as i64 {
            cols.len()
        } else {
            e as usize
        }
    };
    let mut i: usize = lo;
    while i < hi
        invariant
            lo <= i,
            hi <= cols@.len(),
            cols@.len() == old(cols)@.len(),
            cols@.len() <= MAX_PIXELS,
            lo as int == line_lo(from as int) || (lo == cols@.len() && line_lo(from as int) >= cols@.len()),
            hi as int == line_hi(to as int, cols@.len() as int),
            forall|j: int|
                0 <= j < cols@.len() ==> cols@[j] == if lo <= j < i {
                    line_pixel(old(cols)@, j, from as int, to as int, col, blend)
                } else {
                    old(cols)@[j]
                },
        decreases hi - i,
    {
        let amt = pixel_coverage(i, from, to);
        let c = blend.blend(&cols[i], &col, amt);
        cols.set(i, c);
        i = i + 1;
    }
    assert(cols@ =~= line_spec(old(cols)@, from as int, to as int, col, blend));
}

/// Mixes a rainbow into the frame with weight `alpha`: the color wheel spread
/// once over the strip, turning once every `cycle_ms` milliseconds.
pub fn do_rainbow(cols: &mut Vec<Color>, time_ms: u64, cycle_ms: u64, alpha: i32)
    requires
        cycle_ms > 0,
        old(cols)@.len() <= MAX_PIXELS,
    ensures
        final(cols)@.len() == old(cols)@.len(),
        forall|i: int|
            0 <= i < final(cols)@.len() ==> final(cols)@[i] == rainbow_pixel(
                old(cols)@,
                i,
                time_ms as int,
                cycle_ms as int,
                alpha as int,
            ),
        final(cols)@ == rainbow_spec(old(cols)@, time_ms as int, cycle_ms as int, alpha as int),
{
    let one: u128 = ONE as u128;
    let phase: u128 = ((time_ms % cycle_ms) as u128) * one / (cycle_ms as u128);
    proof {
        assert(phase < one) by (nonlinear_arith)
            requires
                phase == ((time_ms % cycle_ms) as int) * 65536 / (cycle_ms as int),
                0 <= time_ms % cycle_ms < cycle_ms,
                one == 65536;
    }
    let len: usize = cols.len();
    let mut i: usize = 0;
    while i < len
        invariant
            i <= len,
            len == cols@.len(),
            cols@.len() == old(cols)@.len(),
            len <= MAX_PIXELS,
            phase == rainbow_phase(time_ms as int, cycle_ms as int),
            phase < one,
            one == 65536,
            forall|j: int|
                0 <= j < len ==> cols@[j] == if j < i {
                    rainbow_pixel(old(cols)@, j, time_ms as int, cycle_ms as int, alpha as int)
                } else {
                    old(cols)@[j]
                },
        decreases len - i,
    {
        let step: u128 = (i as u128) * one / (len as u128);
        proof {
            assert(step < one) by (nonlinear_arith)
                requires step == (i as int) * 65536 / (len as int), i < len, one == 65536;
        }
        let hue: u64 = (phase + one - step) as u64;
        let c = BlendMode::Mix.blend(&cols[i], &Color::from_hue(hue), alpha);
        cols.set(i, c);
        i = i + 1;
    }
    assert(cols@ =~= rainbow_spec(old(cols)@, time_ms as int, cycle_ms as int, alpha as int));
}

} // verus!

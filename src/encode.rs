//! The wire format of the strip: pixel bytes and framed instructions.
use vstd::prelude::*;
use crate::color::{byte_of, clamp_spec, clamp_unit, Color};

verus! {

/// Channel order of the encoded pixel bytes.
#[derive(Clone, Copy, Debug, PartialEq, Eq, Structural)]
pub enum ColorFormat {
    /// Green, then red, then blue.
    GRB,
}

/// One framed command for the strip.
#[derive(Debug)]
pub enum Instruction {
    /// Presents what has been sent.
    Show,
    /// Turns every pixel off.
    Clear,
    /// Sets one pixel.
    SetPixelColor(u16, Color),
    /// Sets one pixel through the gamma curve of the strip.
    SetPixelColorGamma(u16, Color),
    /// Sets every pixel, in strip order.
    SetPixels(Vec<Color>),
}

/// The three bytes of one pixel in green, red, blue order.
pub open spec fn grb_bytes(c: Color) -> Seq<u8> {
    seq![byte_of(c.1 as int), byte_of(c.0 as int), byte_of(c.2 as int)]
}

/// The bytes of a sequence of pixels, pixel after pixel.
pub open spec fn encode_spec(cs: Seq<Color>) -> Seq<u8>
    decreases cs.len(),
{
    if cs.len() == 0 {
        Seq::empty()
    } else {
        encode_spec(cs.drop_last()) + grb_bytes(cs.last())
    }
}

/// The frame with every channel clamped into `[0, ONE]`.
pub open spec fn clamp_frame(cs: Seq<Color>) -> Seq<Color> {
    cs.map_values(|c: Color| clamp_spec(c))
}

/// The bytes of one pixel instruction: op-code, reserved byte, little-endian
/// index, then red, green and blue.
pub open spec fn pixel_instruction_bytes(op: u8, i: u16, c: Color) -> Seq<u8> {
    seq![
        op,
        0u8,
        (i % 256) as u8,
        (i / 256) as u8,
        byte_of(c.0 as int),
        byte_of(c.1 as int),
        byte_of(c.2 as int),
    ]
}

/// The bytes that frame an instruction.
pub open spec fn instruction_bytes(ins: Instruction) -> Seq<u8> {
    match ins {
        Instruction::Show => seq![0u8, 0u8],
        Instruction::Clear => seq![1u8, 0u8],
        Instruction::SetPixelColor(i, c) => pixel_instruction_bytes(2, i, c),
        Instruction::SetPixelColorGamma(i, c) => pixel_instruction_bytes(3, i, c),
        Instruction::SetPixels(p) => seq![4u8, 0u8] + encode_spec(p@),
    }
}

/// The encoding has three bytes per pixel, green, red and blue in turn.
pub proof fn lemma_encode_layout(cs: Seq<Color>)
    ensures
        encode_spec(cs).len() == 3 * cs.len(),
        forall|i: int|
            0 <= i < cs.len() ==> {
                &&& #[trigger] encode_spec(cs)[3 * i] == byte_of(cs[i].1 as int)
                &&& encode_spec(cs)[3 * i + 1] == byte_of(cs[i].0 as int)
                &&& encode_spec(cs)[3 * i + 2] == byte_of(cs[i].2 as int)
            },
    decreases cs.len(),
{
    if cs.len() > 0 {
        lemma_encode_layout(cs.drop_last());
        let prev = encode_spec(cs.drop_last());
        assert forall|i: int| 0 <= i < cs.len() implies {
            &&& #[trigger] encode_spec(cs)[3 * i] == byte_of(cs[i].1 as int)
            &&& encode_spec(cs)[3 * i + 1] == byte_of(cs[i].0 as int)
            &&& encode_spec(cs)[3 * i + 2] == byte_of(cs[i].2 as int)
        } by {
            let e = encode_spec(cs);
            assert(e == prev + grb_bytes(cs.last()));
            if i < cs.len() - 1 {
                assert(cs.drop_last()[i] == cs[i]);
                assert(e[3 * i] == prev[3 * i]);
                assert(e[3 * i + 1] == prev[3 * i + 1]);
                assert(e[3 * i + 2] == prev[3 * i + 2]);
            } else {
                assert(3 * i == prev.len());
            }
        }
    }
}

proof fn lemma_byte_of_clamp(x: int)
    ensures
        byte_of(clamp_unit(x)) == byte_of(x),
{
}

/// Clamping a frame before encoding it changes no byte.
pub proof fn lemma_encode_clamp_idempotent(cs: Seq<Color>)
    ensures
        encode_spec(clamp_frame(cs)) == encode_spec(cs),
    decreases cs.len(),
{
    if cs.len() > 0 {
        let c = cs.last();
        lemma_byte_of_clamp(c.0 as int);
        lemma_byte_of_clamp(c.1 as int);
        lemma_byte_of_clamp(c.2 as int);
        assert(clamp_frame(cs).drop_last() =~= clamp_frame(cs.drop_last()));
        lemma_encode_clamp_idempotent(cs.drop_last());
    }
}

impl ColorFormat {
    /// The bytes of `colors` in this channel order, pixel after pixel.
    pub fn as_bytes(&self, colors: &[Color]) -> (r: Vec<u8>)
        requires
            colors@.len() * 3 <= usize::MAX,
        ensures
            r@ == encode_spec(colors@),
            r@.len() == 3 * colors@.len(),
    {
        match self {
            ColorFormat::GRB => {
                let mut bytes: Vec<u8> = Vec::with_capacity(colors.len() * 3);
                let mut i: usize = 0;
                while i < colors.len()
                    invariant
                        i <= colors@.len(),
                        bytes@ == encode_spec(colors@.subrange(0, i as int)),
                    decreases colors@.len() - i,
                {
                    let (r, g, b) = colors[i].as_byte_color();
                    bytes.push(g);
                    bytes.push(r);
                    bytes.push(b);
                    proof {
                        let s = colors@.subrange(0, i + 1);
                        assert(s.drop_last() =~= colors@.subrange(0, i as int));
                        assert(bytes@ =~= encode_spec(s));
                    }
                    i = i + 1;
                }
                proof {
                    assert(colors@.subrange(0, colors@.len() as int) =~= colors@);
                    lemma_encode_layout(colors@);
                }
                bytes
            },
        }
    }
}

fn push_pixel_instruction(out: &mut Vec<u8>, op: u8, i: u16, c: &Color)
    ensures
        final(out)@ == old(out)@ + pixel_instruction_bytes(op, i, *c),
{
    let (r, g, b) = c.as_byte_color();
    out.push(op);
    out.push(0);
    out.push((i % 256) as u8);
    out.push((i / 256) as u8);
    out.push(r);
    out.push(g);
    out.push(b);
    assert(final(out)@ =~= old(out)@ + pixel_instruction_bytes(op, i, *c));
}

impl Instruction {
    /// Appends the framed bytes of this instruction to `out`, as one
    /// uninterrupted sequence.
    pub fn write(&self, out: &mut Vec<u8>)
        requires
            match *self {
                Instruction::SetPixels(p) => p@.len() * 3 <= usize::MAX,
                _ => true,
            },
        ensures
            final(out)@ == old(out)@ + instruction_bytes(*self),
    {
        match self {
            Instruction::Show => {
                out.push(0);
                out.push(0);
                assert(final(out)@ =~= old(out)@ + instruction_bytes(*self));
            },
            Instruction::Clear => {
                out.push(1);
                out.push(0);
                assert(final(out)@ =~= old(out)@ + instruction_bytes(*self));
            },
            Instruction::SetPixelColor(i, c) => push_pixel_instruction(out, 2, *i, c),
            Instruction::SetPixelColorGamma(i, c) => push_pixel_instruction(out, 3, *i, c),
            Instruction::SetPixels(p) => {
                out.push(4);
                out.push(0);
                let mut bytes = ColorFormat::GRB.as_bytes(p.as_slice());
                out.append(&mut bytes);
                assert(final(out)@ =~= old(out)@ + instruction_bytes(*self));
            },
        }
    }
}

} // verus!

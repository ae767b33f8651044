//! A picture as plain text: the PPM format with decimal numbers.

use vstd::prelude::*;

verus! {

/// The largest value of a colour channel.
pub const MAX_CHANNEL: u32 = 255;

/// The letter `P`.
pub const LETTER_P: u8 = 0x50;

/// The digit `0`; the other digits follow it.
pub const DIGIT_ZERO: u8 = 0x30;

/// The blank between two numbers of a line.
pub const BLANK: u8 = 0x20;

/// The end of a line.
pub const NEWLINE: u8 = 0x0a;

/// The three channels of a picture element. A channel above 255 is written
/// as 255.
#[derive(Clone, Copy, Debug, PartialEq, Eq, Structural)]
pub struct Pixel {
    pub r: u32,
    pub g: u32,
    pub b: u32,
}

/// The decimal digits of `n` as text, without leading zeros.
pub open spec fn decimal(n: nat) -> Seq<u8>
    decreases n,
{
    if n < 10 {
        seq![(DIGIT_ZERO + n) as u8]
    } else {
        decimal(n / 10).push((DIGIT_ZERO + n % 10) as u8)
    }
}

/// A channel as it is written.
pub open spec fn channel(c: u32) -> nat {
    if c > MAX_CHANNEL {
        MAX_CHANNEL as nat
    } else {
        c as nat
    }
}

/// The head of a picture: a line that names the format, a line with the
/// width and the height, and a line with the largest channel value.
pub open spec fn header_text(width: u32, height: u32) -> Seq<u8> {
    seq![LETTER_P] + decimal(3) + seq![NEWLINE] + decimal(width as nat) + seq![BLANK] + decimal(
        height as nat,
    ) + seq![NEWLINE] + decimal(MAX_CHANNEL as nat) + seq![NEWLINE]
}

/// The line of one picture element: its three channels, red first, with a
/// blank between them.
pub open spec fn pixel_text(p: Pixel) -> Seq<u8> {
    decimal(channel(p.r)) + seq![BLANK] + decimal(channel(p.g)) + seq![BLANK] + decimal(
        channel(p.b),
    ) + seq![NEWLINE]
}

/// The lines of the picture elements, one after the other.
pub open spec fn body_text(pixels: Seq<Pixel>) -> Seq<u8>
    decreases pixels.len(),
{
    if pixels.len() == 0 {
        Seq::empty()
    } else {
        body_text(pixels.drop_last()) + pixel_text(pixels.last())
    }
}

/// A picture element with every channel as it is written.
pub open spec fn written(p: Pixel) -> Pixel {
    Pixel { r: channel(p.r) as u32, g: channel(p.g) as u32, b: channel(p.b) as u32 }
}

/// Whether `text` is a picture of `width` by `height` elements: the head
/// with that size, and then the lines of exactly `width` times `height`
/// elements, no channel of which is above 255.
pub open spec fn is_picture(text: Seq<u8>, width: u32, height: u32) -> bool {
    exists|pixels: Seq<Pixel>|
        {
            &&& pixels.len() == width * height
            &&& forall|i: int|
                0 <= i < pixels.len() ==> (#[trigger] pixels[i]).r <= MAX_CHANNEL && pixels[i].g
                    <= MAX_CHANNEL && pixels[i].b <= MAX_CHANNEL
            &&& text == header_text(width, height) + #[trigger] body_text(pixels)
        }
}

/// The lines of picture elements are those of the elements as written.
proof fn lemma_body_of_written(pixels: Seq<Pixel>)
    ensures
        body_text(pixels.map_values(|p: Pixel| written(p))) == body_text(pixels),
    decreases pixels.len(),
{
    let as_written = pixels.map_values(|p: Pixel| written(p));
    if pixels.len() > 0 {
        lemma_body_of_written(pixels.drop_last());
        assert(as_written.drop_last() == pixels.drop_last().map_values(|p: Pixel| written(p)));
    }
}

/// Appends the decimal digits of `n`.
fn push_decimal(out: &mut Vec<u8>, n: u32)
    ensures
        final(out)@ == old(out)@ + decimal(n as nat),
    decreases n,
{
    if n >= 10 {
        push_decimal(out, n / 10);
    }
    out.push(DIGIT_ZERO + (n % 10) as u8);
}

/// Appends the head of a picture.
pub fn push_header(out: &mut Vec<u8>, width: u32, height: u32)
    ensures
        final(out)@ == old(out)@ + header_text(width, height),
{
    out.push(LETTER_P);
    push_decimal(out, 3);
    out.push(NEWLINE);
    push_decimal(out, width);
    out.push(BLANK);
    push_decimal(out, height);
    out.push(NEWLINE);
    push_decimal(out, MAX_CHANNEL);
    out.push(NEWLINE);
}

/// Appends the line of one picture element.
pub fn push_pixel(out: &mut Vec<u8>, p: Pixel)
    ensures
        final(out)@ == old(out)@ + pixel_text(p),
{
    push_decimal(out, if p.r > MAX_CHANNEL { MAX_CHANNEL } else { p.r });
    out.push(BLANK);
    push_decimal(out, if p.g > MAX_CHANNEL { MAX_CHANNEL } else { p.g });
    out.push(BLANK);
    push_decimal(out, if p.b > MAX_CHANNEL { MAX_CHANNEL } else { p.b });
    out.push(NEWLINE);
}

/// The text of a picture of `width` by `height` elements, given row by row
/// from the top: the head, then one line for each element. There is no
/// such text unless the elements are `width` times `height` in number.
pub fn encode(width: u32, height: u32, pixels: &[Pixel]) -> (res: Option<Vec<u8>>)
    ensures
        res is Some <==> pixels.len() == width * height,
        res matches Some(out) ==> out@ == header_text(width, height) + body_text(pixels@),
        res matches Some(out) ==> is_picture(out@, width, height),
{
    assert(width * height <= 0xffff_ffff * 0xffff_ffff) by (nonlinear_arith)
        requires
            width <= 0xffff_ffff,
            height <= 0xffff_ffff,
    ;
    if pixels.len() as u64 != width as u64 * height as u64 {
        return None;
    }
    let mut out: Vec<u8> = Vec::new();
    push_header(&mut out, width, height);
    let mut i: usize = 0;
    while i < pixels.len()
        invariant
            i <= pixels.len(),
            out@ == header_text(width, height) + body_text(pixels@.take(i as int)),
        decreases pixels.len() - i,
    {
        proof {
            assert(pixels@.take(i + 1).drop_last() == pixels@.take(i as int));
        }
        push_pixel(&mut out, pixels[i]);
        i += 1;
    }
    proof {
        assert(pixels@.take(i as int) == pixels@);
        lemma_body_of_written(pixels@);
    }
    Some(out)
}

} // verus!

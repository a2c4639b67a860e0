use vstd::prelude::*;

verus! {

/// The decimal digits of `n`, most significant first, in ASCII.
pub open spec fn decimal(n: nat) -> Seq<u8>
    decreases n,
{
    if n < 10 {
        seq![(48 + n) as u8]
    } else {
        decimal(n / 10).push((48 + n % 10) as u8)
    }
}

/// One pixel of a plain-text PPM image: `"r g b\n"`.
pub open spec fn pixel_text(r: u64, g: u64, b: u64) -> Seq<u8> {
    decimal(r as nat) + seq![32u8] + decimal(g as nat) + seq![32u8] + decimal(b as nat) + seq![10u8]
}

/// The header of a plain-text PPM image with 255 as the largest channel value:
/// `"P3\n<width> <height>\n255\n"`.
pub open spec fn header_text(width: u64, height: u64) -> Seq<u8> {
    seq![80u8, 51u8, 10u8] + decimal(width as nat) + seq![32u8] + decimal(height as nat)
        + seq![10u8, 50u8, 53u8, 53u8, 10u8]
}

/// The pixel lines of `px`, in order.
pub open spec fn pixels_text(px: Seq<(u64, u64, u64)>) -> Seq<u8>
    decreases px.len(),
{
    if px.len() == 0 {
        Seq::empty()
    } else {
        pixels_text(px.drop_last()) + pixel_text(px.last().0, px.last().1, px.last().2)
    }
}

/// A whole plain-text PPM image.
pub open spec fn ppm_text(width: u64, height: u64, px: Seq<(u64, u64, u64)>) -> Seq<u8> {
    header_text(width, height) + pixels_text(px)
}

fn push_decimal(out: &mut Vec<u8>, n: u64)
    ensures
        final(out)@ == old(out)@ + decimal(n as nat),
    decreases n,
{
    if n >= 10 {
        push_decimal(out, n / 10);
    }
    out.push(48u8 + (n % 10) as u8);
    proof {
        assert(final(out)@ =~= old(out)@ + decimal(n as nat));
    }
}

fn push_pixel(out: &mut Vec<u8>, r: u64, g: u64, b: u64)
    ensures
        final(out)@ == old(out)@ + pixel_text(r, g, b),
{
    push_decimal(out, r);
    out.push(32u8);
    push_decimal(out, g);
    out.push(32u8);
    push_decimal(out, b);
    out.push(10u8);
    proof {
        assert(final(out)@ =~= old(out)@ + pixel_text(r, g, b));
    }
}

/// The line that stands for one pixel in a plain-text PPM image.
pub fn pixel_line(r: u64, g: u64, b: u64) -> (out: Vec<u8>)
    ensures
        out@ == pixel_text(r, g, b),
{
    let mut out: Vec<u8> = Vec::new();
    push_pixel(&mut out, r, g, b);
    proof {
        assert(out@ =~= pixel_text(r, g, b));
    }
    out
}

/// The header of a plain-text PPM image of the given size.
pub fn ppm_header(width: u64, height: u64) -> (out: Vec<u8>)
    ensures
        out@ == header_text(width, height),
{
    let mut out: Vec<u8> = Vec::new();
    out.push(80u8);
    out.push(51u8);
    out.push(10u8);
    push_decimal(&mut out, width);
    out.push(32u8);
    push_decimal(&mut out, height);
    out.push(10u8);
    out.push(50u8);
    out.push(53u8);
    out.push(53u8);
    out.push(10u8);
    proof {
        assert(out@ =~= header_text(width, height));
    }
    out
}

/// A plain-text PPM image: the header, then one line per pixel in the order given
/// (row by row from the top, each row left to right).
pub fn encode_ppm(width: u64, height: u64, pixels: &Vec<(u64, u64, u64)>) -> (out: Vec<u8>)
    ensures
        out@ == ppm_text(width, height, pixels@),
{
    let mut out = ppm_header(width, height);
    let mut i: usize = 0;
    while i < pixels.len()
        invariant
            i <= pixels@.len(),
            out@ == header_text(width, height) + pixels_text(pixels@.take(i as int)),
        decreases pixels@.len() - i,
    {
        let (r, g, b) = pixels[i];
        proof {
            let t = pixels@.take(i as int + 1);
            assert(t.drop_last() =~= pixels@.take(i as int));
            assert(t.last() == pixels@[i as int]);
        }
        push_pixel(&mut out, r, g, b);
        proof {
            assert(out@ =~= header_text(width, height) + pixels_text(pixels@.take(i as int + 1)));
        }
        i = i + 1;
    }
    proof {
        assert(pixels@.take(pixels@.len() as int) =~= pixels@);
    }
    out
}

} // verus!

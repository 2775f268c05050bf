use vstd::prelude::*;

use crate::error::ConversionError;
use crate::pixel::Pixel;

verus! {

/// The pixels described by a raw RGB byte sequence: three bytes per pixel in
/// row-major order, alpha fixed at full opacity.
pub open spec fn parse_pixels_spec(raw: Seq<u8>) -> Seq<Pixel> {
    Seq::new(
        (raw.len() as int / 3) as nat,
        |i: int| Pixel { r: raw[3 * i], g: raw[3 * i + 1], b: raw[3 * i + 2], a: 255 },
    )
}

/// The flat RGBA byte sequence of a raster: four bytes per pixel, in channel
/// order r, g, b, a.
pub open spec fn rgba_bytes_spec(s: Seq<Pixel>) -> Seq<u8> {
    Seq::new(
        s.len() * 4,
        |j: int|
            {
                let p = s[j / 4];
                if j % 4 == 0 {
                    p.r
                } else if j % 4 == 1 {
                    p.g
                } else if j % 4 == 2 {
                    p.b
                } else {
                    p.a
                }
            },
    )
}

/// Turns raw decoded bytes into pixels; a byte count that does not describe
/// whole RGB triples is rejected before any classification runs.
pub fn parse_pixels(raw_pixels: Vec<u8>) -> (res: Result<Vec<Pixel>, ConversionError>)
    ensures
        res is Err <==> raw_pixels@.len() % 3 != 0,
        res is Err ==> res == Err::<Vec<Pixel>, ConversionError>(ConversionError::InvalidPixelCount),
        res is Ok ==> res.unwrap()@ == parse_pixels_spec(raw_pixels@),
{
    let mut pixels: Vec<Pixel> = Vec::new();
    let count = raw_pixels.len();
    if count % 3 != 0 {
        return Err(ConversionError::InvalidPixelCount);
    }
    let total = count / 3;
    let mut pixel_n: usize = 0;
    while pixel_n < total
        invariant
            pixel_n <= total,
            raw_pixels@.len() <= usize::MAX,
            total == raw_pixels@.len() as int / 3,
            raw_pixels@.len() % 3 == 0,
            pixels@.len() == pixel_n,
            forall|k: int|
                0 <= k < pixel_n ==> pixels@[k] == parse_pixels_spec(raw_pixels@)[k],
        decreases total - pixel_n,
    {
        proof {
            assert(3 * total <= raw_pixels@.len());
            assert(3 * pixel_n + 3 <= 3 * total);
        }
        let i = pixel_n * 3;
        pixels.push(
            Pixel { r: raw_pixels[i], g: raw_pixels[i + 1], b: raw_pixels[i + 2], a: 255 },
        );
        pixel_n = pixel_n + 1;
    }
    proof {
        assert(pixels@ =~= parse_pixels_spec(raw_pixels@));
    }
    Ok(pixels)
}

/// Flattens a raster into the RGBA byte layout the diagnostic encoder takes.
pub fn pixels_to_rgba_bytes(pixels: &Vec<Pixel>) -> (bytes: Vec<u8>)
    ensures
        bytes@ == rgba_bytes_spec(pixels@),
{
    let mut bytes: Vec<u8> = Vec::new();
    let mut i: usize = 0;
    while i < pixels.len()
        invariant
            i <= pixels@.len(),
            bytes@.len() == 4 * i,
            forall|j: int| 0 <= j < 4 * i ==> bytes@[j] == rgba_bytes_spec(pixels@)[j],
        decreases pixels@.len() - i,
    {
        let p = pixels[i];
        bytes.push(p.r);
        bytes.push(p.g);
        bytes.push(p.b);
        bytes.push(p.a);
        i = i + 1;
    }
    proof {
        assert(bytes@ =~= rgba_bytes_spec(pixels@));
    }
    bytes
}

} // verus!

use vstd::prelude::*;

use crate::average::{average_spec, compute_average_pixel, keep_distant};
use crate::classify::{
    filter_pixels_by_threshold, filter_threshold_spec, reconcile_spec, second_pass,
    HIGH_PASS_THRESHOLD, LOW_PASS_THRESHOLD, MAX_DENOISE_ITERATIONS, NEIGHBOUR_THRESHOLD,
};
use crate::decode::{decode_jpeg, jpeg_decode_of};
use crate::denoise::denoise_spec;
use crate::error::ConversionError;
use crate::pixel::{replacement_pixel, Pixel};
use crate::raster::{parse_pixels, parse_pixels_spec};

verus! {

/// The whole segmentation pipeline as a function of the decoded raster and
/// its stated dimensions: parse the bytes, estimate the background average,
/// run the low pass, estimate the foreground average, run the high pass,
/// reconcile the passes, and denoise the merged raster.
pub open spec fn mask_pipeline_spec(raw: Seq<u8>, width: u16, height: u16) -> Result<
    Seq<Pixel>,
    ConversionError,
> {
    if raw.len() != 3 * (width as int) * (height as int) {
        Err(ConversionError::InvalidPixelCount)
    } else {
        let pixels = parse_pixels_spec(raw);
        if pixels.len() == 0 {
            Err(ConversionError::EmptyInput)
        } else {
            let avg_bg = average_spec(pixels);
            let low = filter_threshold_spec(
                pixels,
                avg_bg,
                replacement_pixel(),
                LOW_PASS_THRESHOLD,
            );
            let fg_candidates = keep_distant(
                low,
                replacement_pixel(),
                avg_bg,
                HIGH_PASS_THRESHOLD,
            );
            if fg_candidates.len() == 0 {
                Err(ConversionError::EmptyInput)
            } else {
                let avg_fg = average_spec(fg_candidates);
                let high = filter_threshold_spec(
                    pixels,
                    avg_fg,
                    replacement_pixel(),
                    HIGH_PASS_THRESHOLD,
                );
                let merged = reconcile_spec(pixels, low, high, avg_fg, avg_bg);
                Ok(
                    denoise_spec(
                        merged,
                        NEIGHBOUR_THRESHOLD,
                        width as int,
                        height as int,
                        replacement_pixel(),
                        MAX_DENOISE_ITERATIONS as nat,
                    ),
                )
            }
        }
    }
}

/// Runs the segmentation pipeline on a decoded raster: the result is the
/// foreground mask, or the exact error the pipeline owes for this input.
pub fn segment_raster(raw_pixels: Vec<u8>, width: u16, height: u16) -> (res: Result<
    Vec<Pixel>,
    ConversionError,
>)
    ensures
        res is Ok <==> mask_pipeline_spec(raw_pixels@, width, height) is Ok,
        res is Ok ==> Ok::<Seq<Pixel>, ConversionError>(res.unwrap()@) == mask_pipeline_spec(
            raw_pixels@,
            width,
            height,
        ),
        res is Err ==> Err::<Seq<Pixel>, ConversionError>(res->Err_0) == mask_pipeline_spec(
            raw_pixels@,
            width,
            height,
        ),
{
    let ghost raw0 = raw_pixels@;
    let ghost m = (width as int) * (height as int);
    proof {
        assert(m <= 65535 * 65535) by (nonlinear_arith)
            requires
                m == (width as int) * (height as int),
                0 <= width <= 65535,
                0 <= height <= 65535,
        ;
        assert((3 * (width as int)) * (height as int) == 3 * m) by (nonlinear_arith)
            requires
                m == (width as int) * (height as int),
        ;
        assert((3 * m) % 3 == 0 && (3 * m) / 3 == m) by (nonlinear_arith)
            requires
                m >= 0,
        ;
    }
    let expected: u64 = 3u64 * (width as u64) * (height as u64);
    if raw_pixels.len() as u64 != expected {
        return Err(ConversionError::InvalidPixelCount);
    }
    let pixels = match parse_pixels(raw_pixels) {
        Ok(p) => p,
        Err(e) => {
            return Err(e);
        },
    };
    proof {
        assert(raw0.len() == 3 * m);
        assert(pixels@.len() == m);
    }
    let average_bg_pixel = match compute_average_pixel(&pixels) {
        Ok(p) => p,
        Err(e) => {
            return Err(e);
        },
    };
    let replacement = Pixel { r: 0, g: 0, b: 0, a: 0 };
    let mut low_pass_pixels = copy_pixels(&pixels);
    filter_pixels_by_threshold(
        &mut low_pass_pixels,
        &average_bg_pixel,
        &replacement,
        LOW_PASS_THRESHOLD,
    );
    let mut high_pass_pixels = copy_pixels(&pixels);
    proof {
        assert(width > 0) by (nonlinear_arith)
            requires
                m == (width as int) * (height as int),
                m > 0,
        ;
    }
    match second_pass(
        &low_pass_pixels,
        &pixels,
        &mut high_pass_pixels,
        &average_bg_pixel,
        width,
        height,
    ) {
        Ok(result) => Ok(result),
        Err(e) => Err(e),
    }
}

/// Decodes a JPEG byte stream and segments the decoded raster, returning the
/// mask together with the raster's dimensions. Every outcome is pinned to the
/// named decode result of the input bytes: a decoder failure surfaces
/// unchanged as `Decode`, a decode without dimensions as `MissingMetadata`,
/// and otherwise the result is exactly the pipeline's verdict on the decoded
/// raster at the reported dimensions.
pub fn jpeg_to_mask(jpeg_bytes: &[u8]) -> (res: Result<(Vec<Pixel>, u16, u16), ConversionError>)
    ensures
        ({
            match jpeg_decode_of(jpeg_bytes@) {
                Err(message) => res matches Err(e) && (e matches ConversionError::Decode(m) && m@
                    == message),
                Ok(decoded) => match decoded.1 {
                    None => res == Err::<(Vec<Pixel>, u16, u16), ConversionError>(
                        ConversionError::MissingMetadata,
                    ),
                    Some(dims) => match mask_pipeline_spec(decoded.0, dims.0, dims.1) {
                        Ok(mask) => res matches Ok(out) && (out.0@ == mask && out.1 == dims.0
                            && out.2 == dims.1),
                        Err(e) => res == Err::<(Vec<Pixel>, u16, u16), ConversionError>(e),
                    },
                },
            }
        }),
{
    let (raw, dims) = match decode_jpeg(jpeg_bytes) {
        Ok(x) => x,
        Err(message) => {
            return Err(ConversionError::Decode(message));
        },
    };
    let (width, height) = match dims {
        Some(d) => d,
        None => {
            return Err(ConversionError::MissingMetadata);
        },
    };
    match segment_raster(raw, width, height) {
        Ok(mask) => Ok((mask, width, height)),
        Err(e) => Err(e),
    }
}

/// An element-wise copy of a raster, for passes that keep the original.
fn copy_pixels(pixels: &Vec<Pixel>) -> (res: Vec<Pixel>)
    ensures
        res@ == pixels@,
{
    let mut res: Vec<Pixel> = Vec::new();
    let mut i: usize = 0;
    while i < pixels.len()
        invariant
            i <= pixels@.len(),
            res@ == pixels@.take(i as int),
        decreases pixels@.len() - i,
    {
        let p = pixels[i];
        res.push(p);
        proof {
            assert(res@ =~= pixels@.take(i as int + 1));
        }
        i = i + 1;
    }
    proof {
        assert(res@ =~= pixels@);
    }
    res
}

} // verus!

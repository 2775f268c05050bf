use vstd::prelude::*;

use crate::average::{
    average_spec, compute_average_pixel_ignoring_exact_and_threshold, keep_distant,
};
use crate::denoise::{denoise_spec, repeat_filter_by_neighbour_count};
use crate::error::ConversionError;
use crate::pixel::{replacement_pixel, Pixel};

verus! {

/// Colour distance threshold to consider what is part of the foreground
/// (during the first pass).
pub const LOW_PASS_THRESHOLD: u8 = 75;

/// Colour distance threshold to consider what is part of the background
/// (during the second pass).
pub const HIGH_PASS_THRESHOLD: u8 = 120;

/// Colour distance threshold to re-add foreground based on foreground colour
/// similarity.
pub const HIGH_PASS_RESTORATION_THRESHOLD_FG: u8 = 90;

/// Colour distance threshold to re-add foreground based on background colour
/// difference.
pub const HIGH_PASS_RESTORATION_THRESHOLD_BG: u8 = 45;

/// A pixel with this many live neighbours or fewer is removed as speckle.
pub const NEIGHBOUR_THRESHOLD: u8 = 1;

/// Hard cap on denoising sweeps, should the fixed point never be reached.
pub const MAX_DENOISE_ITERATIONS: usize = 50;

/// One classification pass: each pixel at least `threshold` away from
/// `reference` keeps its colour, every other pixel becomes `replacement`.
pub open spec fn filter_threshold_spec(
    s: Seq<Pixel>,
    reference: Pixel,
    replacement: Pixel,
    threshold: u8,
) -> Seq<Pixel> {
    Seq::new(
        s.len(),
        |i: int|
            if s[i].exceeds_spec(reference, threshold) {
                s[i]
            } else {
                replacement
            },
    )
}

/// The per-pixel merge rule of the two passes. Background evidence from the
/// high pass overrides everything; otherwise a pixel close to the foreground
/// average yet far from the background average is rescued by snapping it to
/// the foreground average; otherwise the low-pass verdict passes through.
pub open spec fn reconcile_pixel(
    original: Pixel,
    low: Pixel,
    high: Pixel,
    avg_fg: Pixel,
    avg_bg: Pixel,
) -> Pixel {
    if high != replacement_pixel() {
        replacement_pixel()
    } else if !original.exceeds_spec(avg_fg, HIGH_PASS_RESTORATION_THRESHOLD_FG)
        && original.exceeds_spec(avg_bg, HIGH_PASS_RESTORATION_THRESHOLD_BG) {
        avg_fg
    } else {
        low
    }
}

/// Reconciliation of the two passes over the whole raster.
pub open spec fn reconcile_spec(
    original: Seq<Pixel>,
    low: Seq<Pixel>,
    high: Seq<Pixel>,
    avg_fg: Pixel,
    avg_bg: Pixel,
) -> Seq<Pixel> {
    Seq::new(low.len(), |i: int| reconcile_pixel(original[i], low[i], high[i], avg_fg, avg_bg))
}

/// Law: a classification pass writes each cell either unchanged or exactly
/// the replacement marker, never any other value.
pub proof fn lemma_filter_threshold_values(
    s: Seq<Pixel>,
    reference: Pixel,
    replacement: Pixel,
    threshold: u8,
)
    ensures
        forall|i: int|
            0 <= i < s.len() ==> #[trigger] filter_threshold_spec(s, reference, replacement, threshold)[i]
                == s[i] || filter_threshold_spec(s, reference, replacement, threshold)[i]
                == replacement,
{
}

/// Law: when the low pass came from the original raster, reconciliation never
/// introduces a colour absent from {original[i], avg_fg, replacement} at any
/// index.
pub proof fn lemma_reconcile_values(
    original: Seq<Pixel>,
    low: Seq<Pixel>,
    high: Seq<Pixel>,
    avg_fg: Pixel,
    avg_bg: Pixel,
    low_reference: Pixel,
    low_threshold: u8,
)
    requires
        low == filter_threshold_spec(original, low_reference, replacement_pixel(), low_threshold),
    ensures
        forall|i: int|
            0 <= i < low.len() ==> #[trigger] reconcile_spec(original, low, high, avg_fg, avg_bg)[i]
                == original[i] || reconcile_spec(original, low, high, avg_fg, avg_bg)[i] == avg_fg
                || reconcile_spec(original, low, high, avg_fg, avg_bg)[i] == replacement_pixel(),
{
    assert forall|i: int| 0 <= i < low.len() implies #[trigger] reconcile_spec(
        original,
        low,
        high,
        avg_fg,
        avg_bg,
    )[i] == original[i] || reconcile_spec(original, low, high, avg_fg, avg_bg)[i] == avg_fg
        || reconcile_spec(original, low, high, avg_fg, avg_bg)[i] == replacement_pixel() by {
        assert(low[i] == original[i] || low[i] == replacement_pixel());
    }
}

/// Replaces pixels by `replacement` based on `threshold` colour similarity:
/// pixels not exceeding the threshold distance from `reference` are replaced.
pub fn filter_pixels_by_threshold(
    pixels: &mut Vec<Pixel>,
    reference: &Pixel,
    replacement: &Pixel,
    threshold: u8,
)
    ensures
        final(pixels)@ == filter_threshold_spec(
            old(pixels)@,
            *reference,
            *replacement,
            threshold,
        ),
{
    let ghost s0 = pixels@;
    let n = pixels.len();
    let mut i: usize = 0;
    while i < n
        invariant
            i <= n,
            n == s0.len(),
            pixels@.len() == n,
            forall|k: int|
                0 <= k < i ==> pixels@[k] == filter_threshold_spec(
                    s0,
                    *reference,
                    *replacement,
                    threshold,
                )[k],
            forall|k: int| i <= k < n ==> pixels@[k] == s0[k],
        decreases n - i,
    {
        let p = pixels[i];
        if !p.exceeds_colour_threshold(reference, threshold) {
            pixels[i] = *replacement;
        }
        i = i + 1;
    }
    proof {
        assert(pixels@ =~= filter_threshold_spec(s0, *reference, *replacement, threshold));
    }
}

/// The second (high) pass and everything after it: estimates the foreground
/// average from confident low-pass candidates, turns `high_pass_pixels` into
/// the high-pass raster, reconciles the passes per pixel, and denoises the
/// merged raster. Fails with `EmptyInput` when no low-pass candidate is far
/// enough from the background average to estimate a foreground colour; the
/// high-pass raster is then left untouched.
pub fn second_pass(
    low_pass_pixels: &Vec<Pixel>,
    pixels: &Vec<Pixel>,
    high_pass_pixels: &mut Vec<Pixel>,
    average_bg_pixel: &Pixel,
    width: u16,
    height: u16,
) -> (res: Result<Vec<Pixel>, ConversionError>)
    requires
        width > 0,
        low_pass_pixels@.len() == (width as int) * (height as int),
        pixels@.len() == low_pass_pixels@.len(),
        old(high_pass_pixels)@.len() == low_pass_pixels@.len(),
    ensures
        ({
            let fg_candidates = keep_distant(
                low_pass_pixels@,
                replacement_pixel(),
                *average_bg_pixel,
                HIGH_PASS_THRESHOLD,
            );
            &&& (res is Err <==> fg_candidates.len() == 0)
            &&& (res is Err ==> res == Err::<Vec<Pixel>, ConversionError>(
                ConversionError::EmptyInput,
            ) && final(high_pass_pixels)@ == old(high_pass_pixels)@)
            &&& (res is Ok ==> ({
                let avg_fg = average_spec(fg_candidates);
                let high = filter_threshold_spec(
                    old(high_pass_pixels)@,
                    avg_fg,
                    replacement_pixel(),
                    HIGH_PASS_THRESHOLD,
                );
                &&& final(high_pass_pixels)@ == high
                &&& res.unwrap()@ == denoise_spec(
                    reconcile_spec(pixels@, low_pass_pixels@, high, avg_fg, *average_bg_pixel),
                    NEIGHBOUR_THRESHOLD,
                    width as int,
                    height as int,
                    replacement_pixel(),
                    MAX_DENOISE_ITERATIONS as nat,
                )
            }))
        }),
{
    let replacement = Pixel { r: 0, g: 0, b: 0, a: 0 };
    let average_fg_pixel = match compute_average_pixel_ignoring_exact_and_threshold(
        low_pass_pixels,
        &replacement,
        average_bg_pixel,
        HIGH_PASS_THRESHOLD,
    ) {
        Ok(p) => p,
        Err(e) => {
            return Err(e);
        },
    };
    filter_pixels_by_threshold(
        high_pass_pixels,
        &average_fg_pixel,
        &replacement,
        HIGH_PASS_THRESHOLD,
    );
    // All high-pass pixels (background) are removed from the foreground.
    // Non-high-pass pixels that are similar to the foreground colour, and
    // different to the background colour, are added to the foreground if not
    // already there -- this reduces errors from the first (low) pass.
    let ghost avg_fg = average_fg_pixel;
    let ghost high = high_pass_pixels@;
    let n = low_pass_pixels.len();
    let mut result: Vec<Pixel> = Vec::new();
    let mut i: usize = 0;
    while i < n
        invariant
            i <= n,
            n == low_pass_pixels@.len(),
            pixels@.len() == n,
            high_pass_pixels@ == high,
            high.len() == n,
            replacement == replacement_pixel(),
            average_fg_pixel == avg_fg,
            result@.len() == i,
            forall|k: int|
                0 <= k < i ==> result@[k] == reconcile_spec(
                    pixels@,
                    low_pass_pixels@,
                    high,
                    avg_fg,
                    *average_bg_pixel,
                )[k],
        decreases n - i,
    {
        let is_high_pass = high_pass_pixels[i] != replacement;
        let value = if !is_high_pass && !pixels[i].exceeds_colour_threshold(
            &average_fg_pixel,
            HIGH_PASS_RESTORATION_THRESHOLD_FG,
        ) && pixels[i].exceeds_colour_threshold(
            average_bg_pixel,
            HIGH_PASS_RESTORATION_THRESHOLD_BG,
        ) {
            average_fg_pixel
        } else if is_high_pass {
            replacement
        } else {
            low_pass_pixels[i]
        };
        result.push(value);
        proof {
            assert(value == reconcile_pixel(
                pixels@[i as int],
                low_pass_pixels@[i as int],
                high[i as int],
                avg_fg,
                *average_bg_pixel,
            ));
        }
        i = i + 1;
    }
    proof {
        assert(result@ =~= reconcile_spec(
            pixels@,
            low_pass_pixels@,
            high,
            avg_fg,
            *average_bg_pixel,
        ));
    }
    repeat_filter_by_neighbour_count(
        &mut result,
        NEIGHBOUR_THRESHOLD,
        width,
        height,
        &replacement,
        MAX_DENOISE_ITERATIONS,
    );
    Ok(result)
}

} // verus!

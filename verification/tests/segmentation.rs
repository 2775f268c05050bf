use u_u::average::{
    compute_average_pixel, compute_average_pixel_ignoring_exact,
    compute_average_pixel_ignoring_exact_and_threshold,
};
use u_u::classify::{filter_pixels_by_threshold, second_pass};
use u_u::convert::segment_raster;
use u_u::denoise::{filter_by_neighbour_count, get_pixel_neighbour_indices,
    repeat_filter_by_neighbour_count};
use u_u::raster::{parse_pixels, pixels_to_rgba_bytes};
use u_u::{ConversionError, Pixel};

const REPLACEMENT: Pixel = Pixel { r: 0, g: 0, b: 0, a: 0 };

fn px(r: u8, g: u8, b: u8) -> Pixel {
    Pixel { r, g, b, a: 255 }
}

#[test]
fn average_of_single_pixel_is_that_pixel() {
    let buffer = vec![Pixel { r: 13, g: 200, b: 7, a: 9 }];
    let avg = compute_average_pixel(&buffer).unwrap();
    assert_eq!(avg, px(13, 200, 7));
}

#[test]
fn magnitude_of_self_diff_is_zero() {
    let samples = [px(0, 0, 0), px(255, 255, 255), px(13, 77, 200), Pixel { r: 5, g: 6, b: 7, a: 0 }];
    for p in samples.iter() {
        assert_eq!(p.diff(p).magnitude(), 0);
    }
}

#[test]
fn zero_threshold_is_always_exceeded_by_differing_pixels() {
    let pairs = [
        (px(1, 0, 0), px(0, 0, 0)),
        (px(0, 4, 0), px(0, 3, 0)),
        (px(9, 9, 9), px(9, 9, 200)),
    ];
    for (a, b) in pairs.iter() {
        assert!(a.exceeds_colour_threshold(b, 0));
    }
}

#[test]
fn magnitude_is_the_clamped_euclidean_norm() {
    assert_eq!(px(3, 4, 0).magnitude(), 5);
    assert_eq!(px(1, 2, 2).magnitude(), 3);
    // sqrt(10^2 + 11^2 + 12^2) = sqrt(365) = 19.1..., truncated.
    assert_eq!(px(10, 11, 12).magnitude(), 19);
    // The true norm of (255, 255, 255) is 441.6...: clamped, not wrapped.
    assert_eq!(px(255, 255, 255).magnitude(), 255);
    assert_eq!(px(255, 0, 0).magnitude(), 255);
    assert_eq!(px(254, 0, 0).magnitude(), 254);
}

#[test]
fn threshold_test_includes_the_boundary() {
    // diff (3, 4, 0) has magnitude exactly 5: "exceeds" means >=.
    let a = px(103, 104, 100);
    let b = px(100, 100, 100);
    assert!(a.exceeds_colour_threshold(&b, 5));
    assert!(!a.exceeds_colour_threshold(&b, 6));
}

#[test]
fn average_is_the_channel_wise_mean() {
    let buffer = vec![px(10, 0, 255), px(20, 1, 255), px(31, 2, 255)];
    // (10+20+31)/3 = 20, (0+1+2)/3 = 1, (255*3)/3 = 255.
    assert_eq!(compute_average_pixel(&buffer).unwrap(), px(20, 1, 255));
}

#[test]
fn empty_average_fails_with_empty_input_not_a_panic() {
    let empty: Vec<Pixel> = Vec::new();
    assert_eq!(compute_average_pixel(&empty), Err(ConversionError::EmptyInput));
}

#[test]
fn average_excluding_drops_exact_matches_only() {
    let buffer = vec![REPLACEMENT, px(10, 20, 30), REPLACEMENT, px(20, 40, 50)];
    let avg = compute_average_pixel_ignoring_exact(&buffer, &REPLACEMENT).unwrap();
    assert_eq!(avg, px(15, 30, 40));
    // Excluding everything leaves nothing to average.
    let all = vec![REPLACEMENT, REPLACEMENT];
    assert_eq!(
        compute_average_pixel_ignoring_exact(&all, &REPLACEMENT),
        Err(ConversionError::EmptyInput)
    );
}

#[test]
fn average_excluding_and_filtered_keeps_distant_pixels_only() {
    let reference = px(0, 0, 0);
    // Distances to black: 0 for black, 255+ for white (clamped), ~44 for (40,10,10).
    let buffer = vec![px(255, 255, 255), px(40, 10, 10), REPLACEMENT, px(255, 255, 255)];
    let avg =
        compute_average_pixel_ignoring_exact_and_threshold(&buffer, &REPLACEMENT, &reference, 100)
            .unwrap();
    assert_eq!(avg, px(255, 255, 255));
    let close = vec![px(40, 10, 10)];
    assert_eq!(
        compute_average_pixel_ignoring_exact_and_threshold(&close, &REPLACEMENT, &reference, 100),
        Err(ConversionError::EmptyInput)
    );
}

#[test]
fn parse_pixels_reads_rgb_triples_with_opaque_alpha() {
    let raw = vec![1u8, 2, 3, 4, 5, 6];
    let pixels = parse_pixels(raw).unwrap();
    assert_eq!(pixels, vec![px(1, 2, 3), px(4, 5, 6)]);
}

#[test]
fn parse_pixels_rejects_a_byte_count_not_divisible_by_three() {
    assert_eq!(parse_pixels(vec![1u8, 2, 3, 4]), Err(ConversionError::InvalidPixelCount));
}

#[test]
fn invalid_pixel_count_fails_before_any_classification() {
    let res = segment_raster(vec![0u8; 4], 2, 1);
    assert_eq!(res, Err(ConversionError::InvalidPixelCount));
    // A byte count that disagrees with the stated resolution is rejected too.
    let res = segment_raster(vec![0u8; 6], 3, 1);
    assert_eq!(res, Err(ConversionError::InvalidPixelCount));
}

#[test]
fn empty_raster_fails_with_empty_input() {
    assert_eq!(segment_raster(Vec::new(), 0, 0), Err(ConversionError::EmptyInput));
}

#[test]
fn low_pass_writes_only_original_or_replacement() {
    let mut pixels = vec![px(10, 10, 10), px(200, 200, 200), px(90, 90, 90), px(0, 0, 1)];
    let original = pixels.clone();
    let reference = px(100, 100, 100);
    filter_pixels_by_threshold(&mut pixels, &reference, &REPLACEMENT, 75);
    for (p, o) in pixels.iter().zip(original.iter()) {
        assert!(*p == *o || *p == REPLACEMENT);
    }
    // Exact expected classification: distances to (100,100,100) are
    // 155.8 (kept), 173.2 (kept), 17.3 (replaced), 171.7 (kept).
    assert_eq!(pixels, vec![px(10, 10, 10), px(200, 200, 200), REPLACEMENT, px(0, 0, 1)]);
}

#[test]
fn neighbour_indices_follow_the_scan_order_and_omit_out_of_bounds() {
    // 3x3 raster: the centre has all 8 neighbours, a corner only 3.
    assert_eq!(get_pixel_neighbour_indices(4, 3, 3), vec![0, 3, 6, 1, 7, 2, 5, 8]);
    assert_eq!(get_pixel_neighbour_indices(0, 3, 3), vec![3, 1, 4]);
    assert_eq!(get_pixel_neighbour_indices(8, 3, 3), vec![4, 7, 5]);
    // An edge cell of a single-row raster has only its two row neighbours.
    assert_eq!(get_pixel_neighbour_indices(1, 4, 1), vec![0, 2]);
}

#[test]
fn denoising_removes_an_isolated_edge_pixel_in_one_iteration() {
    // A 3x3 mask, everything already background except one white pixel at the
    // outer edge: it has no live neighbour, so surviving would need at least
    // two, and one sweep removes it.
    let mut mask = vec![REPLACEMENT; 9];
    mask[1] = px(255, 255, 255);
    let changed = filter_by_neighbour_count(&mut mask, 1, 3, 3, &REPLACEMENT);
    assert_eq!(changed, 1);
    assert_eq!(mask, vec![REPLACEMENT; 9]);
}

#[test]
fn gray_raster_with_single_white_edge_pixel_denoises_to_an_empty_mask() {
    // 3x3 uniform mid-gray, one white pixel at the outer edge. The white
    // pixel survives both passes alone and is then removed as speckle.
    let mut raw = Vec::new();
    for i in 0..9 {
        if i == 1 {
            raw.extend_from_slice(&[255u8, 255, 255]);
        } else {
            raw.extend_from_slice(&[128u8, 128, 128]);
        }
    }
    let mask = segment_raster(raw, 3, 3).unwrap();
    assert_eq!(mask, vec![REPLACEMENT; 9]);
}

#[test]
fn denoising_is_monotonic_and_idempotent_at_the_fixed_point() {
    // A sparse diagonal plus a solid 3x3 block in a 5x5 raster.
    let w = px(255, 255, 255);
    let mut mask = vec![REPLACEMENT; 25];
    for i in [0usize, 6, 12, 16, 17, 18, 21, 22, 23].iter() {
        mask[*i] = w;
    }
    let live_before: Vec<usize> =
        (0..25).filter(|i| mask[*i] != REPLACEMENT).collect();
    let mut once = mask.clone();
    filter_by_neighbour_count(&mut once, 1, 5, 5, &REPLACEMENT);
    let live_after: Vec<usize> = (0..25).filter(|i| once[*i] != REPLACEMENT).collect();
    // Monotonic: live cells only shrink.
    for i in live_after.iter() {
        assert!(live_before.contains(i));
    }
    assert!(live_after.len() <= live_before.len());
    // Run to the fixed point, then one more sweep changes nothing.
    let mut settled = mask.clone();
    repeat_filter_by_neighbour_count(&mut settled, 1, 5, 5, &REPLACEMENT, 50);
    let mut again = settled.clone();
    let changed = filter_by_neighbour_count(&mut again, 1, 5, 5, &REPLACEMENT);
    assert_eq!(changed, 0);
    assert_eq!(again, settled);
}

#[test]
fn black_and_white_halves_keep_the_white_half_through_both_passes() {
    // 10x10 raster: top half black, bottom half white. Both halves lie far
    // from the mid-gray background average, so the low pass keeps the whole
    // white half (and the black half too), the high pass keeps the whole
    // white half, reconciliation then drops every cell the high pass kept as
    // background evidence, and the denoiser has nothing further to do.
    let mut raw = Vec::new();
    for i in 0..100 {
        if i < 50 {
            raw.extend_from_slice(&[0u8, 0, 0]);
        } else {
            raw.extend_from_slice(&[255u8, 255, 255]);
        }
    }
    let pixels = parse_pixels(raw).unwrap();
    let avg_bg = compute_average_pixel(&pixels).unwrap();
    assert_eq!(avg_bg, px(127, 127, 127));
    let mut low = pixels.clone();
    filter_pixels_by_threshold(&mut low, &avg_bg, &REPLACEMENT, 75);
    for i in 50..100 {
        assert_eq!(low[i], px(255, 255, 255));
    }
    let mut high = pixels.clone();
    let merged = second_pass(&low, &pixels, &mut high, &avg_bg, 10, 10).unwrap();
    for i in 50..100 {
        assert_eq!(high[i], px(255, 255, 255));
    }
    // Every cell carried high-pass background evidence, so the merge empties
    // the mask, and a further denoising sweep changes nothing.
    assert_eq!(merged, vec![REPLACEMENT; 100]);
    let mut again = merged.clone();
    let changed = filter_by_neighbour_count(&mut again, 1, 10, 10, &REPLACEMENT);
    assert_eq!(changed, 0);
}

#[test]
fn reconciliation_introduces_no_foreign_colours() {
    // A raster with a gray background, a red subject and a few odd pixels.
    let mut raw = Vec::new();
    for i in 0..64 {
        if (18..22).contains(&i) || (26..30).contains(&i) || (34..38).contains(&i) {
            raw.extend_from_slice(&[200u8, 10, 10]);
        } else if i == 55 {
            raw.extend_from_slice(&[10u8, 200, 10]);
        } else {
            raw.extend_from_slice(&[120u8, 120, 120]);
        }
    }
    let pixels = parse_pixels(raw.clone()).unwrap();
    let avg_bg = compute_average_pixel(&pixels).unwrap();
    let mut low = pixels.clone();
    filter_pixels_by_threshold(&mut low, &avg_bg, &REPLACEMENT, 75);
    let avg_fg = compute_average_pixel_ignoring_exact_and_threshold(
        &low,
        &REPLACEMENT,
        &avg_bg,
        120,
    );
    let mask = segment_raster(raw, 8, 8).unwrap();
    for (i, p) in mask.iter().enumerate() {
        let allowed = *p == pixels[i]
            || *p == REPLACEMENT
            || Ok(*p) == avg_fg;
        assert!(allowed, "foreign colour {:?} at index {}", p, i);
    }
}

#[test]
fn rgba_bytes_flatten_the_raster_in_channel_order() {
    let pixels = vec![px(1, 2, 3), Pixel { r: 9, g: 8, b: 7, a: 0 }];
    assert_eq!(pixels_to_rgba_bytes(&pixels), vec![1u8, 2, 3, 255, 9, 8, 7, 0]);
}

#[test]
fn jpeg_decode_failure_surfaces_as_a_decode_error() {
    let res = u_u::convert::jpeg_to_mask(&[1u8, 2, 3, 4]);
    assert!(matches!(res, Err(ConversionError::Decode(_))));
}

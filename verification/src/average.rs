use vstd::prelude::*;

use crate::error::ConversionError;
use crate::pixel::Pixel;

verus! {

/// Channel-wise sums over a pixel sequence, as (sum of r, sum of g, sum of b).
pub open spec fn sum_rgb(s: Seq<Pixel>) -> (int, int, int)
    decreases s.len(),
{
    if s.len() == 0 {
        (0, 0, 0)
    } else {
        let t = sum_rgb(s.drop_last());
        (t.0 + s.last().r, t.1 + s.last().g, t.2 + s.last().b)
    }
}

/// The arithmetic mean colour of a non-empty pixel sequence: each of r, g, b
/// is averaged independently with integer division; alpha is fixed at 255.
pub open spec fn average_spec(s: Seq<Pixel>) -> Pixel
    recommends
        s.len() > 0,
{
    Pixel {
        r: (sum_rgb(s).0 / s.len() as int) as u8,
        g: (sum_rgb(s).1 / s.len() as int) as u8,
        b: (sum_rgb(s).2 / s.len() as int) as u8,
        a: 255,
    }
}

/// Law: the average of a single-pixel buffer is that pixel, with alpha
/// normalized to full opacity.
pub proof fn lemma_average_singleton(p: Pixel)
    ensures
        average_spec(seq![p]) == (Pixel { r: p.r, g: p.g, b: p.b, a: 255 }),
{
    let s = seq![p];
    assert(s.drop_last() =~= Seq::<Pixel>::empty());
    assert(sum_rgb(s.drop_last()) == (0int, 0int, 0int));
    assert(s.last() == p);
    assert(sum_rgb(s) == (p.r as int, p.g as int, p.b as int));
}

/// The pixels of `s` that are not exactly equal to `ignore`.
pub open spec fn keep_not_exact(s: Seq<Pixel>, ignore: Pixel) -> Seq<Pixel> {
    s.filter(|p: Pixel| p != ignore)
}

/// The pixels of `s` that are not exactly equal to `ignore_exact` and lie at
/// least `threshold` away from `reference` in colour distance.
pub open spec fn keep_distant(
    s: Seq<Pixel>,
    ignore_exact: Pixel,
    reference: Pixel,
    threshold: u8,
) -> Seq<Pixel> {
    s.filter(|p: Pixel| p != ignore_exact && p.exceeds_spec(reference, threshold))
}

/// Mean colour over all pixels of the buffer; empty buffers are rejected.
pub fn compute_average_pixel(pixels: &Vec<Pixel>) -> (res: Result<Pixel, ConversionError>)
    ensures
        res is Err <==> pixels@.len() == 0,
        res is Err ==> res == Err::<Pixel, ConversionError>(ConversionError::EmptyInput),
        res is Ok ==> res == Ok::<Pixel, ConversionError>(average_spec(pixels@)),
{
    let count = pixels.len();
    if count == 0 {
        return Err(ConversionError::EmptyInput);
    }
    let mut sum_r: u128 = 0;
    let mut sum_g: u128 = 0;
    let mut sum_b: u128 = 0;
    let mut i: usize = 0;
    while i < count
        invariant
            i <= count,
            count == pixels@.len(),
            (sum_r as int, sum_g as int, sum_b as int) == sum_rgb(pixels@.take(i as int)),
            sum_r <= 255 * (i as int),
            sum_g <= 255 * (i as int),
            sum_b <= 255 * (i as int),
        decreases count - i,
    {
        let p = pixels[i];
        proof {
            assert(pixels@.take(i as int + 1).drop_last() =~= pixels@.take(i as int));
            assert(pixels@.take(i as int + 1).last() == p);
        }
        sum_r = sum_r + p.r as u128;
        sum_g = sum_g + p.g as u128;
        sum_b = sum_b + p.b as u128;
        i = i + 1;
    }
    proof {
        assert(pixels@.take(count as int) =~= pixels@);
        assert(sum_r / (count as u128) <= 255) by (nonlinear_arith)
            requires
                sum_r <= 255 * (count as int),
                count > 0,
        ;
        assert(sum_g / (count as u128) <= 255) by (nonlinear_arith)
            requires
                sum_g <= 255 * (count as int),
                count > 0,
        ;
        assert(sum_b / (count as u128) <= 255) by (nonlinear_arith)
            requires
                sum_b <= 255 * (count as int),
                count > 0,
        ;
    }
    let avg_r = (sum_r / count as u128) as u8;
    let avg_g = (sum_g / count as u128) as u8;
    let avg_b = (sum_b / count as u128) as u8;
    Ok(Pixel { r: avg_r, g: avg_g, b: avg_b, a: 255 })
}

/// Mean colour after dropping pixels exactly equal to `ignore`; fails when
/// that leaves nothing to average.
pub fn compute_average_pixel_ignoring_exact(pixels: &Vec<Pixel>, ignore: &Pixel) -> (res: Result<
    Pixel,
    ConversionError,
>)
    ensures
        res is Err <==> keep_not_exact(pixels@, *ignore).len() == 0,
        res is Err ==> res == Err::<Pixel, ConversionError>(ConversionError::EmptyInput),
        res is Ok ==> res == Ok::<Pixel, ConversionError>(
            average_spec(keep_not_exact(pixels@, *ignore)),
        ),
{
    let mut filtered: Vec<Pixel> = Vec::new();
    let mut i: usize = 0;
    while i < pixels.len()
        invariant
            i <= pixels@.len(),
            filtered@ == keep_not_exact(pixels@.take(i as int), *ignore),
        decreases pixels@.len() - i,
    {
        let p = pixels[i];
        proof {
            reveal(Seq::filter);
            assert(pixels@.take(i as int + 1).drop_last() =~= pixels@.take(i as int));
            assert(pixels@.take(i as int + 1).last() == p);
        }
        if p != *ignore {
            filtered.push(p);
        }
        i = i + 1;
    }
    proof {
        assert(pixels@.take(pixels@.len() as int) =~= pixels@);
    }
    compute_average_pixel(&filtered)
}

/// Mean colour after dropping pixels exactly equal to `ignore_exact` and
/// pixels that do not exceed `threshold` distance from `reference`; fails when
/// that leaves nothing to average.
pub fn compute_average_pixel_ignoring_exact_and_threshold(
    pixels: &Vec<Pixel>,
    ignore_exact: &Pixel,
    reference: &Pixel,
    threshold: u8,
) -> (res: Result<Pixel, ConversionError>)
    ensures
        res is Err <==> keep_distant(pixels@, *ignore_exact, *reference, threshold).len() == 0,
        res is Err ==> res == Err::<Pixel, ConversionError>(ConversionError::EmptyInput),
        res is Ok ==> res == Ok::<Pixel, ConversionError>(
            average_spec(keep_distant(pixels@, *ignore_exact, *reference, threshold)),
        ),
{
    let mut filtered: Vec<Pixel> = Vec::new();
    let mut i: usize = 0;
    while i < pixels.len()
        invariant
            i <= pixels@.len(),
            filtered@ == keep_distant(pixels@.take(i as int), *ignore_exact, *reference, threshold),
        decreases pixels@.len() - i,
    {
        let p = pixels[i];
        proof {
            reveal(Seq::filter);
            assert(pixels@.take(i as int + 1).drop_last() =~= pixels@.take(i as int));
            assert(pixels@.take(i as int + 1).last() == p);
        }
        if p != *ignore_exact && p.exceeds_colour_threshold(reference, threshold) {
            filtered.push(p);
        }
        i = i + 1;
    }
    proof {
        assert(pixels@.take(pixels@.len() as int) =~= pixels@);
    }
    compute_average_pixel(&filtered)
}

} // verus!

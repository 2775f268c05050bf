use vstd::prelude::*;

use crate::pixel::Pixel;

verus! {

/// The raster index of the Moore neighbour at offset (dx, dy) from the cell
/// holding index `i` in a w-by-h raster, as a sequence: empty when that
/// neighbour falls outside the raster.
pub open spec fn nb_cell(i: int, w: int, h: int, dx: int, dy: int) -> Seq<usize>
    recommends
        w > 0,
{
    let x = i % w + dx;
    let y = i / w + dy;
    if 0 <= x < w && 0 <= y < h {
        seq![(y * w + x) as usize]
    } else {
        Seq::<usize>::empty()
    }
}

/// The raster indices of the up-to-eight Moore neighbours of index `i`:
/// out-of-bounds neighbours at edges and corners are omitted, not treated as
/// background. The order is the column to the left (top to bottom), the cells
/// above and below, then the column to the right.
pub open spec fn neighbour_seq(i: int, w: int, h: int) -> Seq<usize>
    recommends
        w > 0,
{
    nb_cell(i, w, h, -1, -1) + nb_cell(i, w, h, -1, 0) + nb_cell(i, w, h, -1, 1) + nb_cell(
        i,
        w,
        h,
        0,
        -1,
    ) + nb_cell(i, w, h, 0, 1) + nb_cell(i, w, h, 1, -1) + nb_cell(i, w, h, 1, 0) + nb_cell(
        i,
        w,
        h,
        1,
        1,
    )
}

/// How many of the listed raster indices hold a pixel other than
/// `replacement` in `s`.
pub open spec fn live_in(s: Seq<Pixel>, idxs: Seq<usize>, replacement: Pixel) -> nat
    decreases idxs.len(),
{
    if idxs.len() == 0 {
        0
    } else {
        live_in(s, idxs.drop_last(), replacement) + if s[idxs.last() as int] != replacement {
            1nat
        } else {
            0nat
        }
    }
}

/// The number of live (non-replacement) Moore neighbours of index `i` in `s`.
pub open spec fn live_neighbour_count(s: Seq<Pixel>, i: int, w: int, h: int, replacement: Pixel) -> nat {
    live_in(s, neighbour_seq(i, w, h), replacement)
}

/// Whether one denoising sweep replaces the pixel at index `i`: it is live
/// but has `threshold` or fewer live neighbours in the pre-sweep raster.
pub open spec fn step_drops(
    s: Seq<Pixel>,
    threshold: u8,
    w: int,
    h: int,
    replacement: Pixel,
    i: int,
) -> bool {
    s[i] != replacement && live_neighbour_count(s, i, w, h, replacement) <= threshold
}

/// One denoising sweep over the whole raster. All neighbour counts read the
/// pre-sweep raster, never cells already rewritten within the same sweep.
pub open spec fn denoise_step_spec(
    s: Seq<Pixel>,
    threshold: u8,
    w: int,
    h: int,
    replacement: Pixel,
) -> Seq<Pixel> {
    Seq::new(
        s.len(),
        |i: int|
            if step_drops(s, threshold, w, h, replacement, i) {
                replacement
            } else {
                s[i]
            },
    )
}

/// How many of the first `n` cells one sweep replaces.
pub open spec fn step_changes(
    s: Seq<Pixel>,
    threshold: u8,
    w: int,
    h: int,
    replacement: Pixel,
    n: int,
) -> int
    decreases n,
{
    if n <= 0 {
        0
    } else {
        step_changes(s, threshold, w, h, replacement, n - 1) + if step_drops(
            s,
            threshold,
            w,
            h,
            replacement,
            n - 1,
        ) {
            1int
        } else {
            0int
        }
    }
}

/// Iterated denoising: sweeps are applied until one changes nothing or the
/// fuel cap is reached.
pub open spec fn denoise_spec(
    s: Seq<Pixel>,
    threshold: u8,
    w: int,
    h: int,
    replacement: Pixel,
    fuel: nat,
) -> Seq<Pixel>
    decreases fuel,
{
    if fuel == 0 {
        s
    } else {
        let s2 = denoise_step_spec(s, threshold, w, h, replacement);
        if s2 == s {
            s
        } else {
            denoise_spec(s2, threshold, w, h, replacement, (fuel - 1) as nat)
        }
    }
}

pub proof fn lemma_step_changes_bounds(
    s: Seq<Pixel>,
    threshold: u8,
    w: int,
    h: int,
    replacement: Pixel,
    n: int,
)
    ensures
        0 <= step_changes(s, threshold, w, h, replacement, n) <= if n >= 0 {
            n
        } else {
            0
        },
    decreases n,
{
    if n > 0 {
        lemma_step_changes_bounds(s, threshold, w, h, replacement, n - 1);
    }
}

/// A sweep replaces no cell among the first `n` exactly when its change count
/// over those cells is zero.
pub proof fn lemma_step_changes_zero(
    s: Seq<Pixel>,
    threshold: u8,
    w: int,
    h: int,
    replacement: Pixel,
    n: int,
)
    ensures
        step_changes(s, threshold, w, h, replacement, n) == 0 <==> (forall|i: int|
            0 <= i < n ==> !step_drops(s, threshold, w, h, replacement, i)),
    decreases n,
{
    if n > 0 {
        lemma_step_changes_zero(s, threshold, w, h, replacement, n - 1);
        lemma_step_changes_bounds(s, threshold, w, h, replacement, n - 1);
    }
}

/// A sweep leaves the raster unchanged exactly when it replaces no cell.
pub proof fn lemma_step_fixed_iff_no_changes(
    s: Seq<Pixel>,
    threshold: u8,
    w: int,
    h: int,
    replacement: Pixel,
)
    ensures
        step_changes(s, threshold, w, h, replacement, s.len() as int) == 0 <==> denoise_step_spec(
            s,
            threshold,
            w,
            h,
            replacement,
        ) == s,
{
    lemma_step_changes_zero(s, threshold, w, h, replacement, s.len() as int);
    if step_changes(s, threshold, w, h, replacement, s.len() as int) == 0 {
        assert(denoise_step_spec(s, threshold, w, h, replacement) =~= s);
    } else {
        let i = choose|i: int|
            0 <= i < s.len() && step_drops(s, threshold, w, h, replacement, i);
        assert(denoise_step_spec(s, threshold, w, h, replacement)[i] == replacement);
        assert(s[i] != replacement);
    }
}

/// Denoising is monotonic: one sweep never revives a replaced pixel, so the
/// set of live indices can only shrink or stay the same.
pub proof fn lemma_denoise_step_monotonic(
    s: Seq<Pixel>,
    threshold: u8,
    w: int,
    h: int,
    replacement: Pixel,
)
    ensures
        denoise_step_spec(s, threshold, w, h, replacement).len() == s.len(),
        forall|i: int|
            0 <= i < s.len() && denoise_step_spec(s, threshold, w, h, replacement)[i]
                != replacement ==> s[i] != replacement,
{
}

/// Monotonicity carries over the whole iteration: a pixel live after
/// denoising was live in the input.
pub proof fn lemma_denoise_monotonic(
    s: Seq<Pixel>,
    threshold: u8,
    w: int,
    h: int,
    replacement: Pixel,
    fuel: nat,
)
    ensures
        denoise_spec(s, threshold, w, h, replacement, fuel).len() == s.len(),
        forall|i: int|
            0 <= i < s.len() && denoise_spec(s, threshold, w, h, replacement, fuel)[i]
                != replacement ==> s[i] != replacement,
    decreases fuel,
{
    if fuel > 0 {
        let s2 = denoise_step_spec(s, threshold, w, h, replacement);
        if s2 != s {
            lemma_denoise_step_monotonic(s, threshold, w, h, replacement);
            lemma_denoise_monotonic(s2, threshold, w, h, replacement, (fuel - 1) as nat);
        }
    }
}

/// Once a sweep changes nothing, denoising is at a fixed point: any further
/// iteration yields the same raster.
pub proof fn lemma_denoise_fixed_point(
    s: Seq<Pixel>,
    threshold: u8,
    w: int,
    h: int,
    replacement: Pixel,
    fuel: nat,
)
    requires
        denoise_step_spec(s, threshold, w, h, replacement) == s,
    ensures
        denoise_spec(s, threshold, w, h, replacement, fuel) == s,
{
}

proof fn lemma_cell_index_bound(xx: int, yy: int, w: int, h: int)
    requires
        0 <= xx < w,
        0 <= yy < h,
    ensures
        0 <= yy * w + xx < w * h,
{
    assert(yy * w + xx < w * h) by (nonlinear_arith)
        requires
            0 <= xx < w,
            0 <= yy < h,
    ;
    assert(0 <= yy * w + xx) by (nonlinear_arith)
        requires
            0 <= xx,
            0 <= yy,
            0 < w,
    ;
}

/// Returns the raster indices of up to 8 Moore neighbours of the given cell.
#[verifier::rlimit(50)]
pub fn get_pixel_neighbour_indices(pixel_i: usize, width: u16, height: u16) -> (r: Vec<usize>)
    requires
        width > 0,
        pixel_i < (width as int) * (height as int),
    ensures
        r@ == neighbour_seq(pixel_i as int, width as int, height as int),
        forall|k: int| 0 <= k < r@.len() ==> (r@[k] as int) < (width as int) * (height as int),
{
    let w = width as usize;
    let h = height as usize;
    let x = pixel_i % w;
    let y = pixel_i / w;
    proof {
        assert(y < h) by (nonlinear_arith)
            requires
                y == pixel_i as int / (w as int),
                pixel_i < (w as int) * (h as int),
                w > 0,
                0 <= pixel_i,
        ;
        assert(x < w);
        assert((w as int) * (h as int) <= 65535 * 65535) by (nonlinear_arith)
            requires
                0 <= w <= 65535,
                0 <= h <= 65535,
        ;
    }
    let ghost iv = pixel_i as int;
    let ghost wv = width as int;
    let ghost hv = height as int;
    let mut neighbours: Vec<usize> = Vec::new();
    if x >= 1 {
        if y >= 1 {
            proof {
                lemma_cell_index_bound(x - 1, y - 1, wv, hv);
            }
            neighbours.push((y - 1) * w + (x - 1));
        }
        proof {
            lemma_cell_index_bound(x - 1, y as int, wv, hv);
        }
        neighbours.push(y * w + (x - 1));
        if y + 1 < h {
            proof {
                lemma_cell_index_bound(x - 1, y + 1, wv, hv);
            }
            neighbours.push((y + 1) * w + (x - 1));
        }
    }
    proof {
        assert(neighbours@ =~= nb_cell(iv, wv, hv, -1, -1) + nb_cell(iv, wv, hv, -1, 0) + nb_cell(
            iv,
            wv,
            hv,
            -1,
            1,
        ));
    }
    let ghost left = neighbours@;
    if y >= 1 {
        proof {
            lemma_cell_index_bound(x as int, y - 1, wv, hv);
        }
        neighbours.push((y - 1) * w + x);
    }
    if y + 1 < h {
        proof {
            lemma_cell_index_bound(x as int, y + 1, wv, hv);
        }
        neighbours.push((y + 1) * w + x);
    }
    proof {
        assert(neighbours@ =~= left + nb_cell(iv, wv, hv, 0, -1) + nb_cell(iv, wv, hv, 0, 1));
    }
    let ghost mid = neighbours@;
    if x + 1 < w {
        if y >= 1 {
            proof {
                lemma_cell_index_bound(x + 1, y - 1, wv, hv);
            }
            neighbours.push((y - 1) * w + (x + 1));
        }
        proof {
            lemma_cell_index_bound(x + 1, y as int, wv, hv);
        }
        neighbours.push(y * w + (x + 1));
        if y + 1 < h {
            proof {
                lemma_cell_index_bound(x + 1, y + 1, wv, hv);
            }
            neighbours.push((y + 1) * w + (x + 1));
        }
    }
    proof {
        assert(neighbours@ =~= mid + nb_cell(iv, wv, hv, 1, -1) + nb_cell(iv, wv, hv, 1, 0)
            + nb_cell(iv, wv, hv, 1, 1));
        assert(neighbours@ =~= neighbour_seq(iv, wv, hv));
    }
    neighbours
}

/// One denoising sweep: removes every live pixel that has `threshold` or
/// fewer live neighbours, counting neighbours in a snapshot of the raster as
/// it stood before the sweep. Returns how many pixels were replaced.
pub fn filter_by_neighbour_count(
    pixels: &mut Vec<Pixel>,
    threshold: u8,
    width: u16,
    height: u16,
    replacement: &Pixel,
) -> (filtered_count: u32)
    requires
        width > 0,
        old(pixels)@.len() == (width as int) * (height as int),
    ensures
        final(pixels)@ == denoise_step_spec(
            old(pixels)@,
            threshold,
            width as int,
            height as int,
            *replacement,
        ),
        filtered_count == step_changes(
            old(pixels)@,
            threshold,
            width as int,
            height as int,
            *replacement,
            old(pixels)@.len() as int,
        ),
{
    let ghost wv = width as int;
    let ghost hv = height as int;
    let ghost s0 = pixels@;
    proof {
        assert(s0.len() <= 65535 * 65535) by (nonlinear_arith)
            requires
                s0.len() == wv * hv,
                0 <= wv <= 65535,
                0 <= hv <= 65535,
        ;
    }
    // Frozen snapshot of the pre-sweep raster: all neighbour counts read it,
    // so results never depend on the traversal order within one sweep.
    let mut pixels_read: Vec<Pixel> = Vec::new();
    let mut c: usize = 0;
    while c < pixels.len()
        invariant
            c <= pixels@.len(),
            pixels@ == s0,
            pixels_read@ == s0.take(c as int),
        decreases pixels@.len() - c,
    {
        let p = pixels[c];
        pixels_read.push(p);
        proof {
            assert(pixels_read@ =~= s0.take(c as int + 1));
        }
        c = c + 1;
    }
    proof {
        assert(pixels_read@ =~= s0);
    }
    let mut filtered_count: u32 = 0;
    let n = pixels.len();
    let mut i: usize = 0;
    while i < n
        invariant
            i <= n,
            n == s0.len(),
            s0.len() == wv * hv,
            s0.len() <= 65535 * 65535,
            width as int == wv,
            height as int == hv,
            width > 0,
            pixels@.len() == n,
            pixels_read@ == s0,
            filtered_count == step_changes(s0, threshold, wv, hv, *replacement, i as int),
            forall|k: int|
                0 <= k < i ==> pixels@[k] == denoise_step_spec(
                    s0,
                    threshold,
                    wv,
                    hv,
                    *replacement,
                )[k],
            forall|k: int| i <= k < n ==> pixels@[k] == s0[k],
        decreases n - i,
    {
        proof {
            lemma_step_changes_bounds(s0, threshold, wv, hv, *replacement, i as int);
        }
        let p = pixels[i];
        if p != *replacement {
            let neighbour_indices = get_pixel_neighbour_indices(i, width, height);
            let mut actual_neighbour_count: usize = 0;
            let mut j: usize = 0;
            while j < neighbour_indices.len()
                invariant
                    j <= neighbour_indices@.len(),
                    neighbour_indices@ == neighbour_seq(i as int, wv, hv),
                    forall|k: int|
                        0 <= k < neighbour_indices@.len() ==> (neighbour_indices@[k] as int)
                            < wv * hv,
                    pixels_read@ == s0,
                    s0.len() == wv * hv,
                    actual_neighbour_count == live_in(
                        s0,
                        neighbour_indices@.take(j as int),
                        *replacement,
                    ),
                    actual_neighbour_count <= j,
                decreases neighbour_indices@.len() - j,
            {
                let idx = neighbour_indices[j];
                proof {
                    assert(neighbour_indices@.take(j as int + 1).drop_last()
                        =~= neighbour_indices@.take(j as int));
                    assert(neighbour_indices@.take(j as int + 1).last() == idx);
                }
                if pixels_read[idx] != *replacement {
                    actual_neighbour_count = actual_neighbour_count + 1;
                }
                j = j + 1;
            }
            proof {
                assert(neighbour_indices@.take(neighbour_indices@.len() as int)
                    =~= neighbour_indices@);
            }
            if actual_neighbour_count <= (threshold as usize) {
                pixels[i] = *replacement;
                filtered_count = filtered_count + 1;
            }
        }
        i = i + 1;
        proof {
            assert(forall|k: int|
                0 <= k < i ==> pixels@[k] == denoise_step_spec(
                    s0,
                    threshold,
                    wv,
                    hv,
                    *replacement,
                )[k]);
        }
    }
    proof {
        assert(pixels@ =~= denoise_step_spec(s0, threshold, wv, hv, *replacement));
    }
    filtered_count
}

/// Removes all pixels that have `threshold` or fewer live neighbours,
/// sweeping repeatedly until a sweep changes nothing (a fixed point) or
/// `max_count` sweeps have run.
pub fn repeat_filter_by_neighbour_count(
    pixels: &mut Vec<Pixel>,
    threshold: u8,
    width: u16,
    height: u16,
    replacement: &Pixel,
    max_count: usize,
)
    requires
        width > 0,
        old(pixels)@.len() == (width as int) * (height as int),
    ensures
        final(pixels)@ == denoise_spec(
            old(pixels)@,
            threshold,
            width as int,
            height as int,
            *replacement,
            max_count as nat,
        ),
{
    let ghost wv = width as int;
    let ghost hv = height as int;
    let ghost s0 = pixels@;
    let mut iteration: usize = 0;
    while iteration < max_count
        invariant
            iteration <= max_count,
            width as int == wv,
            height as int == hv,
            width > 0,
            s0 == old(pixels)@,
            pixels@.len() == wv * hv,
            denoise_spec(s0, threshold, wv, hv, *replacement, max_count as nat) == denoise_spec(
                pixels@,
                threshold,
                wv,
                hv,
                *replacement,
                (max_count - iteration) as nat,
            ),
        decreases max_count - iteration,
    {
        let ghost prev = pixels@;
        let last_filtered_count = filter_by_neighbour_count(
            pixels,
            threshold,
            width,
            height,
            replacement,
        );
        proof {
            lemma_step_fixed_iff_no_changes(prev, threshold, wv, hv, *replacement);
        }
        if last_filtered_count == 0 {
            // No need to keep iterating: the raster is at a fixed point.
            proof {
                lemma_denoise_fixed_point(
                    prev,
                    threshold,
                    wv,
                    hv,
                    *replacement,
                    (max_count - iteration) as nat,
                );
            }
            return ;
        }
        iteration = iteration + 1;
    }
}

} // verus!

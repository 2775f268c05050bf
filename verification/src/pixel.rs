use vstd::prelude::*;

verus! {

/// Represents a coloured (RGB) pixel with an alpha channel.
#[derive(Clone, Copy, Debug, PartialEq, Eq, Structural)]
pub struct Pixel {
    pub r: u8,
    pub g: u8,
    pub b: u8,
    pub a: u8,
}

/// The marker colour written wherever a pixel is classified as background:
/// fully transparent black. Marker comparison is exact equality of all four
/// channels, never colour proximity.
pub open spec fn replacement_pixel() -> Pixel {
    Pixel { r: 0, g: 0, b: 0, a: 0 }
}

/// Absolute difference of two channel values.
pub open spec fn abs_diff(a: u8, b: u8) -> u8 {
    if a >= b {
        (a - b) as u8
    } else {
        (b - a) as u8
    }
}

/// Largest `r` with `r * r <= n`.
pub open spec fn sqrt_floor(n: nat) -> nat
    decreases n,
{
    if n == 0 {
        0
    } else {
        let r = sqrt_floor((n - 1) as nat);
        if (r + 1) * (r + 1) <= n {
            r + 1
        } else {
            r
        }
    }
}

pub proof fn lemma_sqrt_floor_bounds(n: nat)
    ensures
        sqrt_floor(n) * sqrt_floor(n) <= n,
        n < (sqrt_floor(n) + 1) * (sqrt_floor(n) + 1),
    decreases n,
{
    if n == 0 {
        assert(n < (sqrt_floor(n) + 1) * (sqrt_floor(n) + 1)) by (nonlinear_arith)
            requires
                n == 0,
                sqrt_floor(n) == 0,
        ;
    } else {
        let r = sqrt_floor((n - 1) as nat);
        lemma_sqrt_floor_bounds((n - 1) as nat);
        if (r + 1) * (r + 1) <= n {
            assert(n == (r + 1) * (r + 1));
            assert((r + 1) * (r + 1) < (r + 1 + 1) * (r + 1 + 1)) by (nonlinear_arith);
        }
    }
}

pub proof fn lemma_sqrt_floor_unique(n: nat, r: nat)
    requires
        r * r <= n,
        n < (r + 1) * (r + 1),
    ensures
        r == sqrt_floor(n),
{
    let s = sqrt_floor(n);
    lemma_sqrt_floor_bounds(n);
    if r < s {
        assert((r + 1) * (r + 1) <= s * s) by (nonlinear_arith)
            requires
                r + 1 <= s,
        ;
        assert(false);
    }
    if s < r {
        assert((s + 1) * (s + 1) <= r * r) by (nonlinear_arith)
            requires
                s + 1 <= r,
        ;
        assert(false);
    }
}

/// Law: the colour distance of a pixel to itself is zero.
pub proof fn lemma_magnitude_reflexive(p: Pixel)
    ensures
        p.diff_spec(p).magnitude_spec() == 0,
{
    let d = p.diff_spec(p);
    assert(d.r == 0 && d.g == 0 && d.b == 0);
    assert((d.r as int) * (d.r as int) + (d.g as int) * (d.g as int) + (d.b as int) * (d.b as int)
        == 0) by (nonlinear_arith)
        requires
            d.r == 0,
            d.g == 0,
            d.b == 0,
    ;
    assert(d.mag_sq() == 0);
    assert(sqrt_floor(0) == 0);
}

/// Law: with a zero threshold, any two pixels that differ in one of r, g, b
/// exceed the threshold.
pub proof fn lemma_exceeds_zero_threshold(a: Pixel, b: Pixel)
    requires
        a.r != b.r || a.g != b.g || a.b != b.b,
    ensures
        a.exceeds_spec(b, 0),
{
}

impl Pixel {
    /// The diff pixel of `self` against `other`: per-channel absolute
    /// difference over r, g, b, with alpha fixed at full opacity.
    pub open spec fn diff_spec(self, other: Pixel) -> Pixel {
        Pixel {
            r: abs_diff(self.r, other.r),
            g: abs_diff(self.g, other.g),
            b: abs_diff(self.b, other.b),
            a: 255,
        }
    }

    /// Squared Euclidean norm over the r, g, b channels; alpha is excluded.
    pub open spec fn mag_sq(self) -> int {
        (self.r as int) * (self.r as int) + (self.g as int) * (self.g as int) + (self.b as int)
            * (self.b as int)
    }

    /// Euclidean norm over r, g, b, truncated to an integer and clamped into
    /// the 8-bit range.
    pub open spec fn magnitude_spec(self) -> u8 {
        if self.mag_sq() >= 65536 {
            255
        } else {
            sqrt_floor(self.mag_sq() as nat) as u8
        }
    }

    /// Whether `self` differs from `reference` by at least `threshold` in
    /// colour distance.
    pub open spec fn exceeds_spec(self, reference: Pixel, threshold: u8) -> bool {
        self.diff_spec(reference).magnitude_spec() >= threshold
    }

    /// Generates a diff pixel by comparing each field (ignoring alpha).
    pub fn diff(&self, other: &Pixel) -> (d: Pixel)
        ensures
            d == self.diff_spec(*other),
    {
        let calc_diff = |a: u8, b: u8| -> (c: u8)
            ensures
                c == abs_diff(a, b),
            { if a >= b { a - b } else { b - a } };
        Pixel { r: calc_diff(self.r, other.r), g: calc_diff(self.g, other.g), b: calc_diff(
            self.b,
            other.b,
        ), a: 255 }
    }

    /// Computes the vector magnitude of the pixel in the RGB space, clamped
    /// into the 8-bit range rather than wrapped.
    pub fn magnitude(&self) -> (m: u8)
        ensures
            m == self.magnitude_spec(),
    {
        proof {
            assert((self.r as u32) * (self.r as u32) <= 65025) by (nonlinear_arith)
                requires
                    self.r as u32 <= 255,
            ;
            assert((self.g as u32) * (self.g as u32) <= 65025) by (nonlinear_arith)
                requires
                    self.g as u32 <= 255,
            ;
            assert((self.b as u32) * (self.b as u32) <= 65025) by (nonlinear_arith)
                requires
                    self.b as u32 <= 255,
            ;
        }
        let r_sq: u32 = (self.r as u32) * (self.r as u32);
        let g_sq: u32 = (self.g as u32) * (self.g as u32);
        let b_sq: u32 = (self.b as u32) * (self.b as u32);
        let sq: u32 = r_sq + g_sq + b_sq;
        assert(sq == self.mag_sq());
        assert(sq <= 195075);
        let mut root: u32 = 0;
        loop
            invariant
                root * root <= sq <= 195075,
                root <= 441,
            ensures
                root * root <= sq,
                sq < (root + 1) * (root + 1),
            decreases 442 - root,
        {
            proof {
                assert((root + 1) * (root + 1) <= 195364) by (nonlinear_arith)
                    requires
                        root <= 441,
                ;
            }
            let next: u32 = root + 1;
            if next * next <= sq {
                root = next;
                proof {
                    assert(root <= 441) by (nonlinear_arith)
                        requires
                            root * root <= sq <= 195075,
                    ;
                }
            } else {
                break ;
            }
        }
        proof {
            lemma_sqrt_floor_unique(sq as nat, root as nat);
        }
        if root > 255 {
            proof {
                assert(sq >= 65536) by (nonlinear_arith)
                    requires
                        root >= 256,
                        root * root <= sq,
                ;
            }
            255
        } else {
            proof {
                assert(sq < 65536) by (nonlinear_arith)
                    requires
                        root <= 255,
                        sq < (root + 1) * (root + 1),
                ;
            }
            root as u8
        }
    }

    /// Checks whether the pixel is different than the reference by a
    /// threshold.
    pub fn exceeds_colour_threshold(&self, reference: &Pixel, threshold: u8) -> (res: bool)
        ensures
            res == self.exceeds_spec(*reference, threshold),
    {
        let diff_magnitude = self.diff(reference).magnitude();
        diff_magnitude >= threshold
    }
}

} // verus!

//! Textures: image-like things sampled at a hit's surface coordinates
//! or position.

use vstd::prelude::*;

use crate::angles::PI_Q;
use crate::qmath::{max_s, min_s, mul_qs, q_fdiv, q_max, q_min, q_mul, q_parity, ONE};
use crate::traceable::RayHit;
use crate::vec3::{Color, Vec3};

verus! {

/// A texture that has a single color.
#[derive(Debug)]
pub struct SolidColorTex {
    pub color: Color,
}

/// A texture that shows the surface coordinates: red for the first,
/// green for the second.
#[derive(Debug)]
pub struct UVDebugTex {}

/// A two-color checker pattern over space, alternating with the sign
/// of the product of the sines of the scaled position.
#[derive(Debug)]
pub struct CheckerTex {
    pub color1: Color,
    pub color2: Color,
    pub scale: i64,
}

/// A decoded RGBA raster sampled by nearest pixel.
#[derive(Debug)]
pub struct ImageTex {
    width: u32,
    height: u32,
    rgba: Vec<u8>,
}

/// The closed set of texture kinds.
#[derive(Debug)]
pub enum Texture {
    Solid(SolidColorTex),
    UVDebug(UVDebugTex),
    Checker(CheckerTex),
    Image(ImageTex),
}

/// How many half periods of the sine a scaled coordinate spans; its
/// parity is the sign of the sine.
pub open spec fn half_periods_s(scale: int, c: int) -> int {
    mul_qs(scale, c) / 205887
}

/// The sign of the product of the three sines is negative exactly when
/// an odd number of half periods has been entered in total.
pub open spec fn checker_sample_s(t: CheckerTex, p: Vec3) -> Color {
    let n = half_periods_s(t.scale as int, p.x as int) + half_periods_s(t.scale as int, p.y as int)
        + half_periods_s(t.scale as int, p.z as int);
    if n % 2 == 1 {
        t.color1
    } else {
        t.color2
    }
}

impl SolidColorTex {
    /// A solid color from components.
    pub fn new(r: i64, g: i64, b: i64) -> (t: SolidColorTex)
        ensures
            t.color == (Vec3 { x: r, y: g, z: b }),
    {
        SolidColorTex { color: Color::new(r, g, b) }
    }

    /// A solid color from a color value.
    pub fn from_color(color: Color) -> (t: SolidColorTex)
        ensures
            t.color == color,
    {
        SolidColorTex { color }
    }

    /// Every sample is the stored color.
    pub fn sample(&self, _hit: &RayHit) -> (c: Color)
        ensures
            c == self.color,
    {
        self.color
    }
}

impl UVDebugTex {
    /// The surface coordinates as a color.
    pub fn sample(&self, hit: &RayHit) -> (c: Color)
        ensures
            c == (Vec3 { x: hit.u, y: hit.v, z: 0 }),
    {
        Color::new(hit.u, hit.v, 0)
    }
}

impl CheckerTex {
    /// One of the two colors, by the sign of the product of the sines
    /// of the scaled hit position, counted through half periods of the
    /// sine at the fixed-point resolution of pi.
    pub fn sample(&self, hit: &RayHit) -> (c: Color)
        ensures
            c == checker_sample_s(*self, hit.p),
    {
        let kx = q_fdiv(q_mul(self.scale, hit.p.x), PI_Q);
        let ky = q_fdiv(q_mul(self.scale, hit.p.y), PI_Q);
        let kz = q_fdiv(q_mul(self.scale, hit.p.z), PI_Q);
        let px = q_parity(kx);
        let py = q_parity(ky);
        let pz = q_parity(kz);
        let s = px + py + pz;
        proof {
            let a = half_periods_s(self.scale as int, hit.p.x as int);
            let b = half_periods_s(self.scale as int, hit.p.y as int);
            let c0 = half_periods_s(self.scale as int, hit.p.z as int);
            vstd::arithmetic::div_mod::lemma_add_mod_noop(a, b, 2);
            vstd::arithmetic::div_mod::lemma_add_mod_noop(a % 2 + b % 2, c0, 2);
            vstd::arithmetic::div_mod::lemma_mod_twice(a % 2 + b % 2, 2);
            assert((a + b + c0) % 2 == (a % 2 + b % 2 + c0 % 2) % 2);
            vstd::arithmetic::div_mod::lemma_mod_division_less_than_divisor(a, 2);
            vstd::arithmetic::div_mod::lemma_mod_division_less_than_divisor(b, 2);
            vstd::arithmetic::div_mod::lemma_mod_division_less_than_divisor(c0, 2);
            vstd::arithmetic::div_mod::lemma_mod_division_less_than_divisor(
                a % 2 + b % 2 + c0 % 2,
                2,
            );
        }
        if s == 1 || s == 3 {
            self.color1
        } else {
            self.color2
        }
    }
}

/// The nearest-pixel sample of a raster, with the surface coordinates
/// clamped just below one so the pixel indices stay in range.
pub closed spec fn image_sample_s(t: ImageTex, u: int, v: int) -> Color {
    let cu = max_s(0, min_s(u, 65535));
    let cv = max_s(0, min_s(v, 65535));
    let xx = (t.width * cu) / 65536;
    let yy = (t.height * cv) / 65536;
    let idx = 4 * (yy * t.width + xx);
    Vec3 {
        x: ((t.rgba@[idx] * 65536) / 255) as i64,
        y: ((t.rgba@[idx + 1] * 65536) / 255) as i64,
        z: ((t.rgba@[idx + 2] * 65536) / 255) as i64,
    }
}

impl ImageTex {
    /// A nonempty raster has one four-byte RGBA group per pixel.
    #[verifier::type_invariant]
    spec fn wf(self) -> bool {
        self.rgba@.len() == 4 * self.width * self.height && self.width >= 1 && self.height >= 1
    }

    /// Wrap an already decoded raster, given row-major RGBA bytes.
    pub fn new(width: u32, height: u32, rgba: Vec<u8>) -> (t: ImageTex)
        requires
            width >= 1,
            height >= 1,
            rgba@.len() == 4 * width * height,
        ensures
            t.size() == (width as int, height as int),
    {
        ImageTex { width, height, rgba }
    }

    /// The raster's width and height in pixels.
    pub closed spec fn size(self) -> (int, int) {
        (self.width as int, self.height as int)
    }

    /// The nearest pixel under the hit's surface coordinates.
    pub fn sample(&self, hit: &RayHit) -> (c: Color)
        ensures
            c == image_sample_s(*self, hit.u as int, hit.v as int),
    {
        proof {
            use_type_invariant(self);
        }
        let byte_count = self.rgba.len();
        let cu = q_max(0, q_min(hit.u, 65535));
        let cv = q_max(0, q_min(hit.v, 65535));
        proof {
            assert((self.width as int) * cu < 65536 * (self.width as int) && (self.width as int)
                * cu <= 0xffff_ffff * 65536) by (nonlinear_arith)
                requires
                    0 <= cu <= 65535,
                    1 <= (self.width as int) <= 0xffff_ffff,
            ;
            assert((self.height as int) * cv < 65536 * (self.height as int) && (self.height as int)
                * cv <= 0xffff_ffff * 65536) by (nonlinear_arith)
                requires
                    0 <= cv <= 65535,
                    1 <= (self.height as int) <= 0xffff_ffff,
            ;
            vstd::arithmetic::div_mod::lemma_multiply_divide_lt(
                (self.width as int) * cu,
                65536,
                self.width as int,
            );
            vstd::arithmetic::div_mod::lemma_multiply_divide_lt(
                (self.height as int) * cv,
                65536,
                self.height as int,
            );
            vstd::arithmetic::div_mod::lemma_div_pos_is_pos((self.width as int) * cu, 65536);
            vstd::arithmetic::div_mod::lemma_div_pos_is_pos((self.height as int) * cv, 65536);
        }
        let xx: u64 = (self.width as u64) * (cu as u64) / 65536;
        let yy: u64 = (self.height as u64) * (cv as u64) / 65536;
        proof {
            assert(yy * (self.width as int) + xx < (self.height as int) * (self.width as int))
                by (nonlinear_arith)
                requires
                    0 <= xx < self.width as int,
                    0 <= yy < self.height as int,
            ;
            assert(4 * ((self.height as int) * (self.width as int)) == self.rgba@.len())
                by (nonlinear_arith)
                requires
                    self.rgba@.len() == 4 * (self.width as int) * (self.height as int),
            ;
            assert(4 * ((yy as int) * (self.width as int) + (xx as int)) + 3 < self.rgba@.len())
                by (nonlinear_arith)
                requires
                    (yy as int) * (self.width as int) + (xx as int) < (self.height as int) * (
                    self.width as int),
                    0 <= (yy as int) * (self.width as int) + (xx as int),
                    4 * ((self.height as int) * (self.width as int)) == self.rgba@.len(),
            ;
            assert(byte_count == self.rgba@.len());
        }
        let idx: usize = (4 * (yy * (self.width as u64) + xx)) as usize;
        let c0 = self.rgba[idx];
        let c1 = self.rgba[idx + 1];
        let c2 = self.rgba[idx + 2];
        Color::new(
            ((c0 as u32 * 65536) / 255) as i64,
            ((c1 as u32 * 65536) / 255) as i64,
            ((c2 as u32 * 65536) / 255) as i64,
        )
    }
}

/// What a texture yields for a hit.
pub open spec fn texture_sample_s(t: Texture, hit: RayHit) -> Color {
    match t {
        Texture::Solid(s) => s.color,
        Texture::UVDebug(_) => Vec3 { x: hit.u, y: hit.v, z: 0 },
        Texture::Checker(c) => checker_sample_s(c, hit.p),
        Texture::Image(img) => image_sample_s(img, hit.u as int, hit.v as int),
    }
}

impl Texture {
    /// Sample the texture at a hit.
    pub fn sample(&self, hit: &RayHit) -> (c: Color)
        ensures
            c == texture_sample_s(*self, *hit),
    {
        match self {
            Texture::Solid(s) => s.sample(hit),
            Texture::UVDebug(t) => t.sample(hit),
            Texture::Checker(t) => t.sample(hit),
            Texture::Image(t) => t.sample(hit),
        }
    }
}

} // verus!

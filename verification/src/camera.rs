//! The pinhole camera: viewport setup, per-pixel jittered sampling, the
//! recursive shading loop, and gamma-corrected quantization to bytes.

use vstd::prelude::*;
use crate::fixed::{
    ONE, tdiv, fadd, fsub, fmul, fdiv, fsqrt, fx_add, fx_sub, fx_mul, fx_div, fx_sqrt,
    lemma_fmul_unit_range,
};
use crate::vec3::{Vec3, TWO, v_add, v_sub, v_mul, v_scale, v_div_scalar, v_unit};
use crate::ray::Ray;
use crate::interval::{Interval, i_clamp, INFINITY};
use crate::hittable::{Hittable, HittableList, HitRecord, spec_list_hit};
use crate::material::{color_in_range, is_scatter_outcome};
use crate::random::{RandSource, random};

verus! {

/// Half of [`ONE`]: the fixed-point representation of 0.5.
pub const HALF: i64 = 500_000;

/// Lower bound of the shading interval: rays must travel at least this
/// far before hitting, suppressing self-intersection at a scattered
/// ray's origin ("shadow acne").
pub const SHADOW_ACNE_MIN: i64 = 100;

/// Upper clamp bound for a color channel before quantization: just under
/// one, so a full channel maps to byte 255 and not 256.
pub const INTENSITY_MAX: i64 = 999_000;

/// A quantized output pixel, each channel a byte.
#[derive(Clone, Copy, PartialEq, Eq, Structural, Debug)]
pub struct Pixel {
    pub r: u8,
    pub g: u8,
    pub b: u8,
}

/// Render configuration and, once initialized, the derived viewport
/// geometry.
#[derive(Clone, Copy, PartialEq, Eq, Structural, Debug)]
pub struct Camera {
    pub aspect_ratio: i64,
    pub image_width: i64,
    pub samples_per_pixel: u32,
    pub max_depth: u32,
    pub image_height: i64,
    pub camera_center: Vec3,
    pub pixel_delta_u: Vec3,
    pub pixel_delta_v: Vec3,
    pub pixel00_loc: Vec3,
    pub pixel_samples_scale: i64,
}

/// The configuration a render needs: at least one pixel column and one
/// sample, a positive aspect ratio, and — forced by the machine, not by
/// the design — pixel counts whose fixed-point forms fit the scalar
/// type (the width scaled to millionths, and the height derived from
/// it, must stay within `i64`).
pub open spec fn config_wf(c: Camera) -> bool {
    &&& 1 <= c.image_width
    &&& c.image_width * (ONE as int) <= i64::MAX
    &&& c.aspect_ratio > 0
    &&& spec_height(c) * (ONE as int) <= i64::MAX
    &&& c.samples_per_pixel >= 1
}

/// Derived image height: width over aspect ratio, at least 1.
pub open spec fn spec_height(c: Camera) -> int {
    let h = tdiv(c.image_width as int * (ONE as int), c.aspect_ratio as int);
    if h < 1 {
        1
    } else {
        h
    }
}

/// Derived viewport width: the viewport height of 2 times the actual
/// width-to-height ratio.
pub open spec fn spec_viewport_width(c: Camera) -> int {
    fmul(TWO as int, fdiv(c.image_width as int * (ONE as int), spec_height(c) * (ONE as int)))
}

/// Horizontal pixel-to-pixel step: the viewport edge over the pixel count.
pub open spec fn spec_pixel_delta_u(c: Camera) -> Vec3 {
    v_div_scalar(
        Vec3 { x: spec_viewport_width(c) as i64, y: 0, z: 0 },
        c.image_width as int * (ONE as int),
    )
}

/// Vertical pixel-to-pixel step, pointing down the viewport.
pub open spec fn spec_pixel_delta_v(c: Camera) -> Vec3 {
    v_div_scalar(Vec3 { x: 0, y: -2_000_000i64, z: 0 }, spec_height(c) * (ONE as int))
}

/// The location of pixel (0,0): the viewport's upper-left corner offset
/// by half a pixel step in each direction.
pub open spec fn spec_pixel00(c: Camera) -> Vec3 {
    let viewport_u = Vec3 { x: spec_viewport_width(c) as i64, y: 0, z: 0 };
    let viewport_v = Vec3 { x: 0, y: -2_000_000i64, z: 0 };
    let focal = Vec3 { x: 0, y: 0, z: ONE };
    let upper_left = v_sub(
        v_sub(
            v_sub(Vec3 { x: 0, y: 0, z: 0 }, focal),
            v_div_scalar(viewport_u, TWO as int),
        ),
        v_div_scalar(viewport_v, TWO as int),
    );
    v_add(
        upper_left,
        v_div_scalar(v_add(spec_pixel_delta_u(c), spec_pixel_delta_v(c)), TWO as int),
    )
}

/// The antialiasing weight: one over the sample count.
pub open spec fn spec_samples_scale(c: Camera) -> int {
    fdiv(ONE as int, c.samples_per_pixel as int * (ONE as int))
}

/// The camera ray through pixel (i, j), jittered by the sub-pixel
/// offsets `ox` and `oy` (in units of a pixel step).
pub open spec fn spec_get_ray(c: Camera, i: int, j: int, ox: int, oy: int) -> Ray {
    let pixel_sample = v_add(
        v_add(c.pixel00_loc, v_scale(fadd(i * (ONE as int), ox), c.pixel_delta_u)),
        v_scale(fadd(j * (ONE as int), oy), c.pixel_delta_v),
    );
    Ray { orig: c.camera_center, dir: v_sub(pixel_sample, c.camera_center) }
}

/// The background gradient for a missed ray: white at the horizon
/// blended toward sky blue at the zenith by the unit direction's height.
/// The blend weight is clamped into [0, 1]; with exact normalization it
/// always lies there already. (Opaque: only the shading that computes it
/// looks inside.)
#[verifier::opaque]
pub open spec fn background_color(ray: Ray) -> Vec3 {
    let unit_direction = v_unit(ray.dir);
    let a = i_clamp(
        Interval(0, ONE),
        fmul(HALF as int, fadd(unit_direction.y as int, ONE as int)),
    );
    v_add(
        v_scale(fsub(ONE as int, a), Vec3 { x: ONE, y: ONE, z: ONE }),
        v_scale(a, Vec3 { x: HALF, y: 700_000, z: ONE }),
    )
}

/// Gamma-2 correction of a linear channel: the square root for positive
/// values, zero for the rest.
pub open spec fn gamma(c: int) -> int {
    if c > 0 {
        fsqrt(c)
    } else {
        0
    }
}

/// A gamma-corrected channel clamped to [0, 0.999] and scaled to a byte.
pub open spec fn channel_byte(c: int) -> int {
    tdiv(i_clamp(Interval(0, INTENSITY_MAX), gamma(c)) * 255_999, 1_000_000_000)
}

/// `color` is a light value the shading recursion can produce for `ray`
/// with this recursion budget: black once the budget is spent; the
/// background gradient on a miss; on a hit, black if the struck material
/// absorbed the ray, else a possible attenuation times a possible color
/// of the scattered ray one level down.
pub open spec fn is_ray_color(color: Vec3, ray: Ray, depth: u32, objs: Seq<Hittable>) -> bool
    decreases depth, 1int,
{
    if depth == 0 {
        color == (Vec3 { x: 0, y: 0, z: 0 })
    } else {
        let hit = spec_list_hit(objs, ray, Interval(SHADOW_ACNE_MIN, INFINITY));
        if hit.is_none() {
            color == background_color(ray)
        } else {
            is_hit_color(color, ray, depth, objs, hit.unwrap())
        }
    }
}

/// The hit case of [`is_ray_color`]: some scatter outcome of the struck
/// material explains the color — black if it absorbed the ray, else an
/// attenuated possible color of the scattered ray one level down.
pub open spec fn is_hit_color(
    color: Vec3,
    ray: Ray,
    depth: u32,
    objs: Seq<Hittable>,
    rec: HitRecord,
) -> bool
    decreases depth, 0int,
{
    depth > 0 && exists|out: Option<(Ray, Vec3)>|
        #[trigger] is_scatter_outcome(out, rec.material, ray, rec) && if out.is_none() {
            color == (Vec3 { x: 0, y: 0, z: 0 })
        } else {
            exists|sub: Vec3|
                #![trigger is_ray_color(sub, out.unwrap().0, (depth - 1) as u32, objs)]
                #![trigger v_mul(out.unwrap().1, sub)]
                is_ray_color(sub, out.unwrap().0, (depth - 1) as u32, objs) && color == v_mul(
                    out.unwrap().1,
                    sub,
                )
        }
}

/// The accumulated color of `n` samples for pixel (i, j): each sample is
/// a possible color of some jittered camera ray through that pixel.
pub open spec fn is_sample_sum(
    total: Vec3,
    cam: Camera,
    i: int,
    j: int,
    n: u32,
    objs: Seq<Hittable>,
) -> bool
    decreases n,
{
    if n == 0 {
        total == (Vec3 { x: 0, y: 0, z: 0 })
    } else {
        exists|prev: Vec3, c: Vec3, ox: int, oy: int|
            #![trigger spec_get_ray(cam, i, j, ox, oy), v_add(prev, c)]
            is_sample_sum(prev, cam, i, j, (n - 1) as u32, objs) && -HALF <= ox < HALF && -HALF
                <= oy < HALF && is_ray_color(
                c,
                spec_get_ray(cam, i, j, ox, oy),
                cam.max_depth,
                objs,
            ) && total == v_add(prev, c)
    }
}

/// The pixel a color quantizes to, channel by channel.
pub open spec fn spec_write_color(c: Vec3) -> Pixel {
    Pixel {
        r: channel_byte(c.x as int) as u8,
        g: channel_byte(c.y as int) as u8,
        b: channel_byte(c.z as int) as u8,
    }
}

/// `p` is a possible pixel for row-major position `k`: the quantized
/// weighted sum of a full run of samples for that pixel's row and column.
pub open spec fn pixel_ok(p: Pixel, cam: Camera, k: int, objs: Seq<Hittable>) -> bool {
    exists|total: Vec3|
        #![trigger v_scale(cam.pixel_samples_scale as int, total)]
        is_sample_sum(
            total,
            cam,
            k % (cam.image_width as int),
            k / (cam.image_width as int),
            cam.samples_per_pixel,
            objs,
        ) && p == spec_write_color(v_scale(cam.pixel_samples_scale as int, total))
}

/// Every recorded pixel is a possible pixel for its position.
pub open spec fn pixels_ok(pixels: Seq<Pixel>, cam: Camera, objs: Seq<Hittable>) -> bool {
    forall|k: int| 0 <= k < pixels.len() ==> #[trigger] pixel_ok(pixels[k], cam, k, objs)
}

/// Assembles the recursion predicate at a hit whose material scattered:
/// the color is the attenuation times a possible color one level down.
#[verifier::rlimit(100)]
proof fn lemma_ray_color_scattered(
    color: Vec3,
    r: Ray,
    depth: u32,
    objs: Seq<Hittable>,
    rec: HitRecord,
    scattered: Ray,
    attenuation: Vec3,
    sub: Vec3,
)
    requires
        depth > 0,
        spec_list_hit(objs, r, Interval(SHADOW_ACNE_MIN, INFINITY)) == Option::Some(rec),
        is_scatter_outcome(Option::Some((scattered, attenuation)), rec.material, r, rec),
        is_ray_color(sub, scattered, (depth - 1) as u32, objs),
        color == v_mul(attenuation, sub),
    ensures
        is_ray_color(color, r, depth, objs),
{
    let o: Option<(Ray, Vec3)> = Option::Some((scattered, attenuation));
    assert(o.unwrap().0 == scattered && o.unwrap().1 == attenuation);
    assert(is_ray_color(sub, o.unwrap().0, (depth - 1) as u32, objs));
    assert(color == v_mul(o.unwrap().1, sub));
    assert(exists|s: Vec3|
        #[trigger] is_ray_color(s, o.unwrap().0, (depth - 1) as u32, objs) && color == v_mul(
            o.unwrap().1,
            s,
        ));
    assert(is_hit_color(color, r, depth, objs, rec));
    assert(spec_list_hit(objs, r, Interval(SHADOW_ACNE_MIN, INFINITY)).unwrap() == rec);
}

/// Assembles the recursion predicate at a hit whose material absorbed
/// the ray: the color is black.
proof fn lemma_ray_color_absorbed(r: Ray, depth: u32, objs: Seq<Hittable>, rec: HitRecord)
    requires
        depth > 0,
        spec_list_hit(objs, r, Interval(SHADOW_ACNE_MIN, INFINITY)) == Option::Some(rec),
        is_scatter_outcome(Option::None, rec.material, r, rec),
    ensures
        is_ray_color(Vec3 { x: 0, y: 0, z: 0 }, r, depth, objs),
{
    let o: Option<(Ray, Vec3)> = Option::None;
    assert(is_scatter_outcome(o, rec.material, r, rec) && o.is_none());
    assert(is_hit_color(Vec3 { x: 0, y: 0, z: 0 }, r, depth, objs, rec));
    assert(spec_list_hit(objs, r, Interval(SHADOW_ACNE_MIN, INFINITY)).unwrap() == rec);
}

/// The background blend keeps every channel in [0, 1].
proof fn lemma_background_in_range(ray: Ray)
    ensures
        color_in_range(background_color(ray)),
{
    reveal(background_color);
    let a = i_clamp(
        Interval(0, ONE),
        fmul(HALF as int, fadd(v_unit(ray.dir).y as int, ONE as int)),
    );
    assert(0 <= a <= ONE);
    vstd::arithmetic::div_mod::lemma_div_multiples_vanish(ONE as int - a, ONE as int);
    assert(fmul(fsub(ONE as int, a), ONE as int) == ONE - a);
    lemma_fmul_unit_range(a, HALF as int);
    lemma_fmul_unit_range(a, 700_000);
    lemma_fmul_unit_range(a, ONE as int);
    vstd::arithmetic::mul::lemma_mul_is_commutative(a, HALF as int);
    vstd::arithmetic::mul::lemma_mul_is_commutative(a, 700_000);
    vstd::arithmetic::mul::lemma_mul_is_commutative(a, ONE as int);
    lemma_fmul_unit_range(HALF as int, a);
    lemma_fmul_unit_range(700_000, a);
    lemma_fmul_unit_range(ONE as int, a);
}

impl Camera {
    /// Derive the viewport geometry from the configuration: image height
    /// from width and aspect ratio, pixel steps from the viewport edges,
    /// the first pixel's location, and the sample weight.
    pub fn initialize(&mut self)
        requires
            config_wf(*old(self)),
        ensures
            final(self).aspect_ratio == old(self).aspect_ratio,
            final(self).image_width == old(self).image_width,
            final(self).samples_per_pixel == old(self).samples_per_pixel,
            final(self).max_depth == old(self).max_depth,
            final(self).image_height as int == spec_height(*old(self)),
            1 <= final(self).image_height,
            final(self).image_height * (ONE as int) <= i64::MAX,
            final(self).camera_center == (Vec3 { x: 0, y: 0, z: 0 }),
            final(self).pixel_delta_u == spec_pixel_delta_u(*old(self)),
            final(self).pixel_delta_v == spec_pixel_delta_v(*old(self)),
            final(self).pixel00_loc == spec_pixel00(*old(self)),
            final(self).pixel_samples_scale as int == spec_samples_scale(*old(self)),
    {
        // Calculate the image height, and ensure that it's at least 1.
        let h = (self.image_width * ONE) / self.aspect_ratio;
        self.image_height = if h < 1 {
            1
        } else {
            h
        };

        // Camera definitions
        let focal_length = ONE;
        let viewport_height = TWO;
        let w_fx = self.image_width * ONE;
        let h_fx = self.image_height * ONE;
        let viewport_width = fx_mul(viewport_height, fx_div(w_fx, h_fx));
        self.camera_center = Vec3 { x: 0, y: 0, z: 0 };

        // Weight for antialiasing
        self.pixel_samples_scale = fx_div(ONE, (self.samples_per_pixel as i64) * ONE);

        // The vectors across the horizontal and down the vertical viewport edges.
        let viewport_u = Vec3 { x: viewport_width, y: 0, z: 0 };
        let viewport_v = Vec3 { x: 0, y: -viewport_height, z: 0 };

        // The horizontal and vertical delta vectors from pixel to pixel.
        self.pixel_delta_u = viewport_u.div_scalar(w_fx);
        self.pixel_delta_v = viewport_v.div_scalar(h_fx);

        // The location of the upper left pixel.
        let focal_length_vector = Vec3 { x: 0, y: 0, z: focal_length };
        let viewport_upper_left = self
            .camera_center
            .sub(focal_length_vector)
            .sub(viewport_u.div_scalar(TWO))
            .sub(viewport_v.div_scalar(TWO));
        self.pixel00_loc = viewport_upper_left.add(
            self.pixel_delta_u.add(self.pixel_delta_v).div_scalar(TWO),
        );
    }

    /// A camera ray from the center through a jittered point near pixel
    /// (i, j): the jitter offsets are uniform in [-0.5, 0.5) of a pixel
    /// step, the antialiasing supersampling.
    pub fn get_ray(&self, i: i64, j: i64, rng: &mut RandSource) -> (r: Ray)
        requires
            0 <= i,
            i * (ONE as int) <= i64::MAX,
            0 <= j,
            j * (ONE as int) <= i64::MAX,
        ensures
            exists|ox: int, oy: int|
                -HALF <= ox < HALF && -HALF <= oy < HALF && r == #[trigger] spec_get_ray(
                    *self,
                    i as int,
                    j as int,
                    ox,
                    oy,
                ),
    {
        let ox = fx_sub(random(rng), HALF);
        let oy = fx_sub(random(rng), HALF);
        let pixel_sample = self
            .pixel00_loc
            .add(self.pixel_delta_u.scale(fx_add(i * ONE, ox)))
            .add(self.pixel_delta_v.scale(fx_add(j * ONE, oy)));
        let ray_origin = self.camera_center;
        let ray_direction = pixel_sample.sub(ray_origin);
        let r = Ray { orig: ray_origin, dir: ray_direction };
        proof {
            assert(r == spec_get_ray(*self, i as int, j as int, ox as int, oy as int));
        }
        r
    }

    /// The light gathered along a ray: black once the recursion budget is
    /// spent; on a hit, the material's attenuation times the light of the
    /// scattered ray (black if absorbed); on a miss, the background
    /// gradient. Every channel of the result lies in [0, 1].
    #[verifier::rlimit(60)]
    pub fn ray_color(r: Ray, depth: u32, world: &HittableList, rng: &mut RandSource) -> (color:
        Vec3)
        requires
            world.wf(),
        ensures
            color_in_range(color),
            is_ray_color(color, r, depth, world.objects@),
            depth == 0 ==> color == (Vec3 { x: 0, y: 0, z: 0 }),
            depth > 0 && spec_list_hit(
                world.objects@,
                r,
                Interval(SHADOW_ACNE_MIN, INFINITY),
            ).is_none() ==> color == background_color(r),
        decreases depth,
    {
        // If we've exceeded the ray bounce limit, no more light is gathered.
        if depth == 0 {
            return Vec3 { x: 0, y: 0, z: 0 };
        }
        let mut hit_record: HitRecord = Default::default();
        if world.hit(r, Interval(SHADOW_ACNE_MIN, INFINITY), &mut hit_record) {
            let mat = hit_record.material;
            let outcome = mat.scatter(&r, &hit_record, rng);
            match outcome {
                Some((scattered, attenuation)) => {
                    let rec_color = Self::ray_color(scattered, depth - 1, world, rng);
                    proof {
                        lemma_fmul_unit_range(attenuation.x as int, rec_color.x as int);
                        lemma_fmul_unit_range(attenuation.y as int, rec_color.y as int);
                        lemma_fmul_unit_range(attenuation.z as int, rec_color.z as int);
                    }
                    let out = attenuation.mul(rec_color);
                    proof {
                        assert(spec_list_hit(world.objects@, r, Interval(SHADOW_ACNE_MIN, INFINITY))
                            == Option::Some(hit_record));
                        assert(outcome == Option::Some((scattered, attenuation)));
                        lemma_ray_color_scattered(
                            out,
                            r,
                            depth,
                            world.objects@,
                            hit_record,
                            scattered,
                            attenuation,
                            rec_color,
                        );
                    }
                    return out;
                },
                None => {
                    proof {
                        assert(spec_list_hit(world.objects@, r, Interval(SHADOW_ACNE_MIN, INFINITY))
                            == Option::Some(hit_record));
                        lemma_ray_color_absorbed(r, depth, world.objects@, hit_record);
                    }
                    return Vec3 { x: 0, y: 0, z: 0 };
                },
            }
        }
        let unit_direction = r.direction().unit();
        let a = Interval(0, ONE).clamp(fx_mul(HALF, fx_add(unit_direction.y(), ONE)));

        // The "lerp" between white at a = 0 and sky blue at a = 1.
        let white = Vec3 { x: ONE, y: ONE, z: ONE };
        let blue = Vec3 { x: HALF, y: 700_000, z: ONE };
        let blended_value = white.scale(fx_sub(ONE, a)).add(blue.scale(a));
        proof {
            lemma_background_in_range(r);
            assert(blended_value == background_color(r)) by {
                reveal(background_color);
            }
            assert(is_ray_color(blended_value, r, depth, world.objects@));
        }
        blended_value
    }

    /// Gamma-2 correction: the square root of a positive linear channel,
    /// zero for zero or negative input.
    pub fn linear_to_gamma(linear_component: i64) -> (r: i64)
        ensures
            r as int == gamma(linear_component as int),
            r >= 0,
    {
        if linear_component > 0 {
            return fx_sqrt(linear_component);
        }
        0
    }

    /// Quantize an averaged pixel color: gamma-correct each channel,
    /// clamp it to [0, 0.999], and scale to the byte range.
    pub fn write_color(pixel_color: Vec3) -> (p: Pixel)
        ensures
            p.r as int == channel_byte(pixel_color.x as int),
            p.g as int == channel_byte(pixel_color.y as int),
            p.b as int == channel_byte(pixel_color.z as int),
            p == spec_write_color(pixel_color),
    {
        let r = pixel_color.x();
        let g = pixel_color.y();
        let b = pixel_color.z();

        // Apply a linear to gamma transform for gamma 2
        let r = Self::linear_to_gamma(r);
        let g = Self::linear_to_gamma(g);
        let b = Self::linear_to_gamma(b);

        // Translate the [0,1] component values to the byte range [0,255].
        let intensity = Interval(0, INTENSITY_MAX);
        let rbyte = (intensity.clamp(r) * 255_999) / 1_000_000_000;
        let gbyte = (intensity.clamp(g) * 255_999) / 1_000_000_000;
        let bbyte = (intensity.clamp(b) * 255_999) / 1_000_000_000;
        Pixel { r: rbyte as u8, g: gbyte as u8, b: bbyte as u8 }
    }

    /// Render the scene: initialize the viewport, then for every pixel in
    /// row-major, top-to-bottom order accumulate the configured number of
    /// jittered samples, average them, and quantize. The result holds
    /// exactly `image_height * image_width` pixels.
    pub fn render(&mut self, world: &HittableList, rng: &mut RandSource) -> (pixels: Vec<Pixel>)
        requires
            config_wf(*old(self)),
            world.wf(),
        ensures
            final(self).image_width == old(self).image_width,
            final(self).image_height as int == spec_height(*old(self)),
            final(self).camera_center == (Vec3 { x: 0, y: 0, z: 0 }),
            final(self).pixel_delta_u == spec_pixel_delta_u(*old(self)),
            final(self).pixel_delta_v == spec_pixel_delta_v(*old(self)),
            final(self).pixel00_loc == spec_pixel00(*old(self)),
            final(self).pixel_samples_scale as int == spec_samples_scale(*old(self)),
            pixels@.len() == final(self).image_height * final(self).image_width,
            pixels_ok(pixels@, *final(self), world.objects@),
    {
        self.initialize();
        let ghost cam = *self;
        let mut pixels: Vec<Pixel> = Vec::new();
        let h = self.image_height;
        let w = self.image_width;
        let mut j: i64 = 0;
        while j < h
            invariant
                *self == cam,
                world.wf(),
                1 <= w,
                w * (ONE as int) <= i64::MAX,
                1 <= h,
                h * (ONE as int) <= i64::MAX,
                w == cam.image_width,
                h == cam.image_height,
                0 <= j <= h,
                pixels@.len() == j * w,
                pixels_ok(pixels@, cam, world.objects@),
            decreases h - j,
        {
            let mut i: i64 = 0;
            while i < w
                invariant
                    *self == cam,
                    world.wf(),
                    1 <= w,
                    w * (ONE as int) <= i64::MAX,
                    1 <= h,
                    h * (ONE as int) <= i64::MAX,
                    w == cam.image_width,
                    h == cam.image_height,
                    0 <= j < h,
                    0 <= i <= w,
                    pixels@.len() == j * w + i,
                    pixels_ok(pixels@, cam, world.objects@),
                decreases w - i,
            {
                let mut pixel_color = Vec3 { x: 0, y: 0, z: 0 };
                let mut sample: u32 = 0;
                while sample < self.samples_per_pixel
                    invariant
                        *self == cam,
                        world.wf(),
                        0 <= j < h,
                        0 <= i < w,
                        w == cam.image_width,
                        1 <= w,
                        w * (ONE as int) <= i64::MAX,
                        1 <= h,
                        h * (ONE as int) <= i64::MAX,
                        h == cam.image_height,
                        sample <= cam.samples_per_pixel,
                        is_sample_sum(pixel_color, cam, i as int, j as int, sample,
                            world.objects@),
                    decreases self.samples_per_pixel - sample,
                {
                    let ray = self.get_ray(i, j, rng);
                    let c = Self::ray_color(ray, self.max_depth, world, rng);
                    let ghost prev = pixel_color;
                    pixel_color = pixel_color.add(c);
                    proof {
                        let (ox, oy) = choose|ox: int, oy: int|
                            -HALF <= ox < HALF && -HALF <= oy < HALF && ray == #[trigger]
                            spec_get_ray(*self, i as int, j as int, ox, oy);
                        assert(ray == spec_get_ray(cam, i as int, j as int, ox, oy));
                        assert(is_ray_color(c, spec_get_ray(cam, i as int, j as int, ox, oy),
                            cam.max_depth, world.objects@));
                        assert(is_sample_sum(prev, cam, i as int, j as int, sample,
                            world.objects@));
                        assert(pixel_color == v_add(prev, c));
                        assert(is_sample_sum(pixel_color, cam, i as int, j as int, (sample
                            + 1) as u32, world.objects@));
                    }
                    sample = sample + 1;
                }
                let px = Self::write_color(pixel_color.scale(self.pixel_samples_scale));
                let ghost old_pixels = pixels@;
                pixels.push(px);
                proof {
                    let ww = cam.image_width as int;
                    let k0 = old_pixels.len() as int;
                    vstd::arithmetic::div_mod::lemma_fundamental_div_mod_converse(
                        (j as int) * ww + (i as int),
                        ww,
                        j as int,
                        i as int,
                    );
                    assert(k0 % ww == i as int && k0 / ww == j as int);
                    assert(is_sample_sum(pixel_color, cam, k0 % ww, k0 / ww,
                        cam.samples_per_pixel, world.objects@));
                    assert(px == spec_write_color(
                        v_scale(cam.pixel_samples_scale as int, pixel_color),
                    ));
                    assert(pixels@ == old_pixels.push(px));
                    assert(pixel_ok(px, cam, k0, world.objects@));
                    assert forall|k: int|
                        0 <= k < pixels@.len() implies #[trigger] pixel_ok(
                        pixels@[k],
                        cam,
                        k,
                        world.objects@,
                    ) by {
                        if k < k0 {
                            assert(0 <= k < old_pixels.len());
                            assert(pixel_ok(old_pixels[k], cam, k, world.objects@));
                            assert(old_pixels[k] == pixels@[k]);
                        } else {
                            assert(pixels@[k] == px);
                        }
                    }
                    assert(pixels_ok(pixels@, cam, world.objects@));
                }
                i = i + 1;
            }
            proof {
                vstd::arithmetic::mul::lemma_mul_is_distributive_add_other_way(
                    w as int,
                    j as int,
                    1,
                );
            }
            j = j + 1;
        }
        pixels
    }
}

impl Default for Camera {
    /// An unconfigured camera: every field zero.
    fn default() -> (r: Camera)
        ensures
            r.aspect_ratio == 0,
            r.image_width == 0,
            r.samples_per_pixel == 0,
            r.max_depth == 0,
            r.image_height == 0,
            r.camera_center == (Vec3 { x: 0, y: 0, z: 0 }),
            r.pixel_delta_u == (Vec3 { x: 0, y: 0, z: 0 }),
            r.pixel_delta_v == (Vec3 { x: 0, y: 0, z: 0 }),
            r.pixel00_loc == (Vec3 { x: 0, y: 0, z: 0 }),
            r.pixel_samples_scale == 0,
    {
        Camera {
            aspect_ratio: 0,
            image_width: 0,
            samples_per_pixel: 0,
            max_depth: 0,
            image_height: 0,
            camera_center: Vec3 { x: 0, y: 0, z: 0 },
            pixel_delta_u: Vec3 { x: 0, y: 0, z: 0 },
            pixel_delta_v: Vec3 { x: 0, y: 0, z: 0 },
            pixel00_loc: Vec3 { x: 0, y: 0, z: 0 },
            pixel_samples_scale: 0,
        }
    }
}

} // verus!

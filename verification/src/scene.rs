//! The scene model: spheres with a signed-distance query and Lambertian
//! shading, point lights, and the scene that owns them.

use vstd::prelude::*;

use crate::color::Color;
use crate::color::s_cadd;
use crate::color::s_cscale;
use crate::fx::SCALE;
use crate::fx::clamp;
use crate::fx::lemma_mul_bound;
use crate::fx::lemma_sqrt_floor;
use crate::fx::lemma_sqrt_floor_square;
use crate::fx::lemma_tdiv_bound;
use crate::fx::lemma_tdiv_mono;
use crate::fx::lemma_tdiv_parts;
use crate::fx::muldiv_trunc;
use crate::fx::s_clamp;
use crate::fx::tdiv;
use crate::vec3::Vector;
use crate::vec3::in_bounds;
use crate::vec3::lemma_comp_le_mag;
use crate::vec3::lemma_norm_sq_nonneg;
use crate::vec3::norm_sq;
use crate::vec3::s_dot;
use crate::vec3::s_mag;
use crate::vec3::s_normalize;
use crate::vec3::s_sub;

verus! {

/// Cap on scene geometry: centers, radii and light positions stay within
/// this many sub-units of the origin.
pub const WORLD_MAX: i64 = 0x10_0000_0000;

/// Cap on the points handed to distance and shading queries; marching
/// within its step budget cannot carry a point past this.
pub const PT_MAX: i64 = 0x2000_0000_0000_0000;

/// Cap on a scene color channel, in sub-units.
pub const COLOR_MAX: i64 = 0x10_0000;

/// Cap on the number of lights in a scene.
pub const LIGHTS_MAX: i64 = 4096;

/// Ambient reflection coefficient: 0.3, in sub-units.
pub const AMBIENT: i64 = 307;

#[derive(Clone, Copy, PartialEq, Eq, Structural, Debug)]
pub struct Light {
    pub position: Vector,
    pub color: Color,
}

#[derive(Clone, Copy, PartialEq, Eq, Structural, Debug)]
pub struct Sphere {
    pub center: Vector,
    pub radius: i64,
    pub color: Color,
}

/// The renderable objects, a tagged variant per geometry kind.
#[derive(Clone, Copy, PartialEq, Eq, Structural, Debug)]
pub enum Object {
    Sphere(Sphere),
}

/// A scene: the objects to render and the lights that shade them.
pub struct Scene {
    pub objects: Vec<Object>,
    pub lights: Vec<Light>,
}

pub open spec fn color_wf(c: Color) -> bool {
    &&& 0 <= c.r <= COLOR_MAX
    &&& 0 <= c.g <= COLOR_MAX
    &&& 0 <= c.b <= COLOR_MAX
}

pub open spec fn sphere_wf(s: Sphere) -> bool {
    &&& in_bounds(s.center, WORLD_MAX as int)
    &&& 0 <= s.radius <= WORLD_MAX
    &&& color_wf(s.color)
}

pub open spec fn light_wf(l: Light) -> bool {
    &&& in_bounds(l.position, WORLD_MAX as int)
    &&& color_wf(l.color)
}

pub open spec fn object_wf(o: Object) -> bool {
    match o {
        Object::Sphere(s) => sphere_wf(s),
    }
}

/// A renderable scene: at least one well-formed object, and a bounded
/// number of well-formed lights.
pub open spec fn scene_wf(sc: Scene) -> bool {
    &&& 1 <= sc.objects@.len()
    &&& forall|i: int| 0 <= i < sc.objects@.len() ==> object_wf(#[trigger] sc.objects@[i])
    &&& sc.lights@.len() <= LIGHTS_MAX as int
    &&& forall|i: int| 0 <= i < sc.lights@.len() ==> light_wf(#[trigger] sc.lights@[i])
}

/// Signed distance from `p` to the surface of sphere `s`: the magnitude
/// of the offset to the center, less the radius.
pub open spec fn s_distance(s: Sphere, p: Vector) -> int {
    s_mag(s_sub(s.center, p)) - s.radius
}

pub open spec fn s_obj_distance(o: Object, p: Vector) -> int {
    match o {
        Object::Sphere(s) => s_distance(s, p),
    }
}

/// Diffuse weight of an alignment `lam` (a dot of unit vectors):
/// clamped into `[0, 1]`, then halved.
pub open spec fn s_diffuse_factor(lam: int) -> int {
    tdiv(s_clamp(lam, 0, SCALE as int) * 512, SCALE as int)
}

/// What one light adds to a shaded point on a sphere.  A light sitting
/// exactly on the point, or a point at the exact center, has no defined
/// direction; such a degenerate pair contributes nothing rather than
/// dividing by zero.
pub open spec fn s_light_term(s: Sphere, p: Vector, l: Light) -> Color {
    if s_mag(s_sub(p, s.center)) == 0 || s_mag(s_sub(l.position, p)) == 0 {
        Color { r: 0, g: 0, b: 0 }
    } else {
        let n = s_normalize(s_sub(p, s.center));
        let ld = s_normalize(s_sub(l.position, p));
        s_cscale(l.color, s_diffuse_factor(s_dot(ld, n)))
    }
}

/// Lambertian shading of point `p` on sphere `s`: an ambient term plus
/// each light's diffuse contribution, accumulated in light order.
pub open spec fn s_shade(s: Sphere, p: Vector, lights: Seq<Light>) -> Color
    decreases lights.len(),
{
    if lights.len() == 0 {
        s_cscale(s.color, AMBIENT as int)
    } else {
        s_cadd(s_shade(s, p, lights.drop_last()), s_light_term(s, p, lights.last()))
    }
}

pub open spec fn s_obj_shade(o: Object, p: Vector, lights: Seq<Light>) -> Color {
    match o {
        Object::Sphere(s) => s_shade(s, p, lights),
    }
}

/// Scaling a color whose channels sit in `[0, cmax]` by a factor in
/// `[0, SCALE]` keeps every channel in `[0, cmax]`.
proof fn lemma_cscale_bounds(c: Color, s: int, cmax: int)
    requires
        0 <= c.r <= cmax,
        0 <= c.g <= cmax,
        0 <= c.b <= cmax,
        0 <= s <= SCALE as int,
        cmax <= 0x7fff_ffff_ffff_ffff,
    ensures
        0 <= s_cscale(c, s).r <= cmax,
        0 <= s_cscale(c, s).g <= cmax,
        0 <= s_cscale(c, s).b <= cmax,
{
    lemma_mul_bound(c.r as int, s, cmax, SCALE as int);
    lemma_mul_bound(c.g as int, s, cmax, SCALE as int);
    lemma_mul_bound(c.b as int, s, cmax, SCALE as int);
    lemma_tdiv_bound(c.r * s, SCALE as int, cmax);
    lemma_tdiv_bound(c.g * s, SCALE as int, cmax);
    lemma_tdiv_bound(c.b * s, SCALE as int, cmax);
    assert(c.r * s >= 0) by (nonlinear_arith)
        requires
            c.r >= 0,
            s >= 0,
    ;
    assert(c.g * s >= 0) by (nonlinear_arith)
        requires
            c.g >= 0,
            s >= 0,
    ;
    assert(c.b * s >= 0) by (nonlinear_arith)
        requires
            c.b >= 0,
            s >= 0,
    ;
    lemma_tdiv_parts(c.r * s, SCALE as int);
    lemma_tdiv_parts(c.g * s, SCALE as int);
    lemma_tdiv_parts(c.b * s, SCALE as int);
}

/// Every light's term keeps its channels in `[0, COLOR_MAX]`.
proof fn lemma_light_term_bounds(s: Sphere, p: Vector, l: Light)
    requires
        light_wf(l),
    ensures
        0 <= s_light_term(s, p, l).r <= COLOR_MAX,
        0 <= s_light_term(s, p, l).g <= COLOR_MAX,
        0 <= s_light_term(s, p, l).b <= COLOR_MAX,
{
    if s_mag(s_sub(p, s.center)) == 0 || s_mag(s_sub(l.position, p)) == 0 {
    } else {
        let n = s_normalize(s_sub(p, s.center));
        let ld = s_normalize(s_sub(l.position, p));
        let lam = s_dot(ld, n);
        let f = s_diffuse_factor(lam);
        lemma_tdiv_bound(s_clamp(lam, 0, SCALE as int) * 512, SCALE as int, 512);
        lemma_tdiv_parts(s_clamp(lam, 0, SCALE as int) * 512, SCALE as int);
        lemma_cscale_bounds(l.color, f, COLOR_MAX as int);
    }
}

impl Sphere {
    /// Signed distance from `point` to this sphere's surface.
    pub fn distance(&self, point: Vector) -> (d: i64)
        requires
            in_bounds(self.center, WORLD_MAX as int),
            0 <= self.radius <= WORLD_MAX,
            in_bounds(point, PT_MAX as int),
        ensures
            d == s_distance(*self, point),
    {
        let diff = self.center.sub(point);
        let m = diff.magnitude();
        m - self.radius
    }

    /// The outward unit surface normal at `point`.
    pub fn get_normal(&self, point: Vector) -> (n: Vector)
        requires
            in_bounds(self.center, WORLD_MAX as int),
            in_bounds(point, PT_MAX as int),
            s_mag(s_sub(point, self.center)) >= 1,
        ensures
            n == s_normalize(s_sub(point, self.center)),
            in_bounds(n, SCALE as int),
    {
        self.point_offset(point).normalize()
    }

    /// The offset from the center to `point`.
    fn point_offset(&self, point: Vector) -> (o: Vector)
        requires
            in_bounds(self.center, WORLD_MAX as int),
            in_bounds(point, PT_MAX as int),
        ensures
            o == s_sub(point, self.center),
    {
        point.sub(self.center)
    }

    /// Ambient plus per-light Lambertian diffuse shading of `point`.
    pub fn shade(&self, point: Vector, lights: &Vec<Light>) -> (c: Color)
        requires
            sphere_wf(*self),
            in_bounds(point, PT_MAX as int),
            lights@.len() <= LIGHTS_MAX as int,
            forall|i: int| 0 <= i < lights@.len() ==> light_wf(#[trigger] lights@[i]),
        ensures
            c == s_shade(*self, point, lights@),
            0 <= c.r <= (lights@.len() + 1) * (COLOR_MAX as int),
            0 <= c.g <= (lights@.len() + 1) * (COLOR_MAX as int),
            0 <= c.b <= (lights@.len() + 1) * (COLOR_MAX as int),
    {
        proof {
            lemma_cscale_bounds(self.color, AMBIENT as int, COLOR_MAX as int);
        }
        let mut acc = self.color.scale(AMBIENT);
        let mut k: usize = 0;
        proof {
            assert(acc == s_shade(*self, point, lights@.take(0)));
        }
        while k < lights.len()
            invariant
                k <= lights@.len(),
                sphere_wf(*self),
                in_bounds(point, PT_MAX as int),
                lights@.len() <= LIGHTS_MAX as int,
                forall|i: int| 0 <= i < lights@.len() ==> light_wf(#[trigger] lights@[i]),
                acc == s_shade(*self, point, lights@.take(k as int)),
                0 <= acc.r <= (k + 1) * (COLOR_MAX as int),
                0 <= acc.g <= (k + 1) * (COLOR_MAX as int),
                0 <= acc.b <= (k + 1) * (COLOR_MAX as int),
            decreases lights@.len() - k,
        {
            let l = lights[k];
            let off = self.point_offset(point);
            let mn = off.magnitude();
            let lv = l.position.sub(point);
            let ml = lv.magnitude();
            proof {
                lemma_light_term_bounds(*self, point, l);
            }
            if mn > 0 && ml > 0 {
                proof {
                    lemma_comp_le_mag(off);
                    lemma_comp_le_mag(lv);
                }
                let n = off.scale_ratio(SCALE, mn);
                let ld = lv.scale_ratio(SCALE, ml);
                let lam = clamp(ld.dot(n), 0, SCALE);
                let f = muldiv_trunc(lam, 512, SCALE);
                proof {
                    lemma_tdiv_bound(lam * 512, SCALE as int, 512);
                    lemma_tdiv_parts(lam * 512, SCALE as int);
                    lemma_cscale_bounds(l.color, f as int, COLOR_MAX as int);
                    lemma_mul_bound(l.color.r as int, f as int, COLOR_MAX as int, SCALE as int);
                    lemma_mul_bound(l.color.g as int, f as int, COLOR_MAX as int, SCALE as int);
                    lemma_mul_bound(l.color.b as int, f as int, COLOR_MAX as int, SCALE as int);
                }
                let term = l.color.scale(f);
                acc = acc.add(term);
            }
            proof {
                assert(lights@.take(k as int + 1).drop_last() =~= lights@.take(k as int));
                assert(lights@.take(k as int + 1).last() == lights@[k as int]);
            }
            k = k + 1;
        }
        proof {
            assert(lights@.take(lights@.len() as int) =~= lights@);
        }
        acc
    }
}

impl Object {
    /// Signed distance from `point` to this object's surface.
    pub fn distance(&self, point: Vector) -> (d: i64)
        requires
            object_wf(*self),
            in_bounds(point, PT_MAX as int),
        ensures
            d == s_obj_distance(*self, point),
    {
        match self {
            Object::Sphere(s) => s.distance(point),
        }
    }

    /// Shade `point` on this object's surface under `lights`.
    pub fn shade(&self, point: Vector, lights: &Vec<Light>) -> (c: Color)
        requires
            object_wf(*self),
            in_bounds(point, PT_MAX as int),
            lights@.len() <= LIGHTS_MAX as int,
            forall|i: int| 0 <= i < lights@.len() ==> light_wf(#[trigger] lights@[i]),
        ensures
            c == s_obj_shade(*self, point, lights@),
            0 <= c.r <= (lights@.len() + 1) * (COLOR_MAX as int),
            0 <= c.g <= (lights@.len() + 1) * (COLOR_MAX as int),
            0 <= c.b <= (lights@.len() + 1) * (COLOR_MAX as int),
    {
        match self {
            Object::Sphere(s) => s.shade(point, lights),
        }
    }
}

impl Scene {
    pub fn new(objects: Vec<Object>, lights: Vec<Light>) -> (sc: Scene)
        ensures
            sc.objects == objects,
            sc.lights == lights,
    {
        Scene { objects, lights }
    }
}

/// A point exactly on a sphere's surface — its squared offset from the
/// center equals the squared radius — has signed distance zero.
pub proof fn lemma_surface_distance_zero(s: Sphere, p: Vector)
    requires
        s.radius >= 0,
        norm_sq(s_sub(s.center, p)) == s.radius * s.radius,
    ensures
        s_distance(s, p) == 0,
{
    let r = s.radius as nat;
    assert(r * r == s.radius * s.radius) by (nonlinear_arith)
        requires
            r == s.radius as nat,
            s.radius >= 0,
    ;
    lemma_sqrt_floor_square(r);
    assert(norm_sq(s_sub(s.center, p)) as nat == r * r);
}

/// A square of a product is the product of the squares.
proof fn lemma_sq_product(x: int, y: int)
    by (nonlinear_arith)
    ensures
        (x * y) * (x * y) == (x * x) * (y * y),
{
}

/// Two cross products bound their mixed term: `(x1*y2 - x2*y1)^2 >= 0`
/// rearranged.
proof fn lemma_cross_bound(x1: int, y1: int, x2: int, y2: int)
    by (nonlinear_arith)
    ensures
        2 * ((x1 * y1) * (x2 * y2)) <= (x1 * x1) * (y2 * y2) + (x2 * x2) * (y1 * y1),
{
}

/// Summing the square and cross bounds gives the Cauchy-Schwarz
/// inequality over opaque products.
proof fn lemma_cs_sum(
    s1: int,
    s2: int,
    s3: int,
    p1: int,
    p2: int,
    p3: int,
    q1: int,
    q2: int,
    q3: int,
)
    requires
        s1 * s1 == p1 * q1,
        s2 * s2 == p2 * q2,
        s3 * s3 == p3 * q3,
        2 * (s1 * s2) <= p1 * q2 + p2 * q1,
        2 * (s1 * s3) <= p1 * q3 + p3 * q1,
        2 * (s2 * s3) <= p2 * q3 + p3 * q2,
    ensures
        (s1 + s2 + s3) * (s1 + s2 + s3) <= (p1 + p2 + p3) * (q1 + q2 + q3),
{
    vstd::arithmetic::mul::lemma_mul_is_distributive_add_other_way(s1 + s2 + s3, s1, s2 + s3);
    vstd::arithmetic::mul::lemma_mul_is_distributive_add_other_way(s1 + s2 + s3, s2, s3);
    vstd::arithmetic::mul::lemma_mul_is_distributive_add(s1, s1, s2 + s3);
    vstd::arithmetic::mul::lemma_mul_is_distributive_add(s1, s2, s3);
    vstd::arithmetic::mul::lemma_mul_is_distributive_add(s2, s1, s2 + s3);
    vstd::arithmetic::mul::lemma_mul_is_distributive_add(s2, s2, s3);
    vstd::arithmetic::mul::lemma_mul_is_distributive_add(s3, s1, s2 + s3);
    vstd::arithmetic::mul::lemma_mul_is_distributive_add(s3, s2, s3);
    vstd::arithmetic::mul::lemma_mul_is_commutative(s1, s2);
    vstd::arithmetic::mul::lemma_mul_is_commutative(s1, s3);
    vstd::arithmetic::mul::lemma_mul_is_commutative(s2, s3);
    assert((s1 + s2 + s3) * (s1 + s2 + s3) == s1 * s1 + s2 * s2 + s3 * s3 + 2 * (s1 * s2) + 2 * (s1
        * s3) + 2 * (s2 * s3));
    vstd::arithmetic::mul::lemma_mul_is_distributive_add_other_way(q1 + q2 + q3, p1, p2 + p3);
    vstd::arithmetic::mul::lemma_mul_is_distributive_add_other_way(q1 + q2 + q3, p2, p3);
    vstd::arithmetic::mul::lemma_mul_is_distributive_add(p1, q1, q2 + q3);
    vstd::arithmetic::mul::lemma_mul_is_distributive_add(p1, q2, q3);
    vstd::arithmetic::mul::lemma_mul_is_distributive_add(p2, q1, q2 + q3);
    vstd::arithmetic::mul::lemma_mul_is_distributive_add(p2, q2, q3);
    vstd::arithmetic::mul::lemma_mul_is_distributive_add(p3, q1, q2 + q3);
    vstd::arithmetic::mul::lemma_mul_is_distributive_add(p3, q2, q3);
    assert((p1 + p2 + p3) * (q1 + q2 + q3) == p1 * q1 + p1 * q2 + p1 * q3 + p2 * q1 + p2 * q2 + p2
        * q3 + p3 * q1 + p3 * q2 + p3 * q3);
}

/// The Cauchy-Schwarz inequality for three components.
proof fn lemma_cauchy_schwarz(ux: int, uy: int, uz: int, wx: int, wy: int, wz: int)
    ensures
        (ux * wx + uy * wy + uz * wz) * (ux * wx + uy * wy + uz * wz) <= (ux * ux + uy * uy + uz
            * uz) * (wx * wx + wy * wy + wz * wz),
{
    lemma_sq_product(ux, wx);
    lemma_sq_product(uy, wy);
    lemma_sq_product(uz, wz);
    lemma_cross_bound(ux, wx, uy, wy);
    lemma_cross_bound(ux, wx, uz, wz);
    lemma_cross_bound(uy, wy, uz, wz);
    lemma_cs_sum(
        ux * wx,
        uy * wy,
        uz * wz,
        ux * ux,
        uy * uy,
        uz * uz,
        wx * wx,
        wy * wy,
        wz * wz,
    );
}

/// The sphere-tracing safety invariant: the signed distance at `p`
/// never exceeds the true Euclidean distance from `p` to any point `q`
/// on or inside the sphere, stated over squared lengths to stay in the
/// integers.
pub proof fn lemma_distance_underestimates(s: Sphere, p: Vector, q: Vector)
    requires
        in_bounds(s.center, WORLD_MAX as int),
        0 <= s.radius <= WORLD_MAX,
        in_bounds(p, PT_MAX as int),
        in_bounds(q, PT_MAX as int),
        norm_sq(s_sub(q, s.center)) <= s.radius * s.radius,
        s_distance(s, p) >= 0,
    ensures
        s_distance(s, p) * s_distance(s, p) <= norm_sq(s_sub(p, q)),
{
    let u = s_sub(p, q);
    let w = s_sub(q, s.center);
    let pc = s_sub(s.center, p);
    let a = norm_sq(u);
    let b = norm_sq(w);
    let cc = norm_sq(pc);
    let dd = u.x * w.x + u.y * w.y + u.z * w.z;
    let r = s.radius as int;
    lemma_norm_sq_nonneg(u);
    lemma_norm_sq_nonneg(w);
    lemma_norm_sq_nonneg(pc);
    assert(cc == a + b + 2 * dd) by (nonlinear_arith)
        requires
            u.x == p.x - q.x,
            u.y == p.y - q.y,
            u.z == p.z - q.z,
            w.x == q.x - s.center.x,
            w.y == q.y - s.center.y,
            w.z == q.z - s.center.z,
            pc.x == s.center.x - p.x,
            pc.y == s.center.y - p.y,
            pc.z == s.center.z - p.z,
            a == u.x * u.x + u.y * u.y + u.z * u.z,
            b == w.x * w.x + w.y * w.y + w.z * w.z,
            cc == pc.x * pc.x + pc.y * pc.y + pc.z * pc.z,
            dd == u.x * w.x + u.y * w.y + u.z * w.z,
    ;
    lemma_cauchy_schwarz(u.x as int, u.y as int, u.z as int, w.x as int, w.y as int, w.z as int);
    assert(dd * dd <= a * b);
    let m = s_mag(pc);
    lemma_sqrt_floor(cc as nat);
    assert(m * m <= cc);
    let d = m - r;
    if d * d > a {
        assert(d * d >= a + 1);
        assert(m * m >= a + b + 2 * d * r + 1) by (nonlinear_arith)
            requires
                m == d + r,
                d * d >= a + 1,
                b <= r * r,
                d >= 0,
                r >= 0,
        ;
        assert(dd >= d * r + 1) by (nonlinear_arith)
            requires
                cc == a + b + 2 * dd,
                m * m >= a + b + 2 * d * r + 1,
                m * m <= cc,
        ;
        assert(false) by (nonlinear_arith)
            requires
                dd >= d * r + 1,
                d >= 0,
                r >= 0,
                dd * dd <= a * b,
                b <= r * r,
                d * d >= a + 1,
                a >= 0,
        ;
    }
}

/// Shading grows with alignment: a larger clamped dot between the light
/// direction and the surface normal never shrinks the diffuse term.
pub proof fn lemma_shade_monotone_in_alignment(c: Color, lam1: int, lam2: int)
    requires
        color_wf(c),
        lam1 <= lam2,
    ensures
        s_cscale(c, s_diffuse_factor(lam1)).r <= s_cscale(c, s_diffuse_factor(lam2)).r,
        s_cscale(c, s_diffuse_factor(lam1)).g <= s_cscale(c, s_diffuse_factor(lam2)).g,
        s_cscale(c, s_diffuse_factor(lam1)).b <= s_cscale(c, s_diffuse_factor(lam2)).b,
{
    let f1 = s_diffuse_factor(lam1);
    let f2 = s_diffuse_factor(lam2);
    lemma_tdiv_mono(s_clamp(lam1, 0, SCALE as int) * 512, s_clamp(lam2, 0, SCALE as int) * 512, SCALE as int);
    lemma_tdiv_bound(s_clamp(lam1, 0, SCALE as int) * 512, SCALE as int, 512);
    lemma_tdiv_bound(s_clamp(lam2, 0, SCALE as int) * 512, SCALE as int, 512);
    lemma_tdiv_parts(s_clamp(lam1, 0, SCALE as int) * 512, SCALE as int);
    lemma_tdiv_parts(s_clamp(lam2, 0, SCALE as int) * 512, SCALE as int);
    assert(c.r * f1 <= c.r * f2) by (nonlinear_arith)
        requires
            c.r >= 0,
            f1 <= f2,
    ;
    assert(c.g * f1 <= c.g * f2) by (nonlinear_arith)
        requires
            c.g >= 0,
            f1 <= f2,
    ;
    assert(c.b * f1 <= c.b * f2) by (nonlinear_arith)
        requires
            c.b >= 0,
            f1 <= f2,
    ;
    lemma_tdiv_mono(c.r * f1, c.r * f2, SCALE as int);
    lemma_tdiv_mono(c.g * f1, c.g * f2, SCALE as int);
    lemma_tdiv_mono(c.b * f1, c.b * f2, SCALE as int);
    lemma_mul_bound(c.r as int, f1, COLOR_MAX as int, SCALE as int);
    lemma_mul_bound(c.g as int, f1, COLOR_MAX as int, SCALE as int);
    lemma_mul_bound(c.b as int, f1, COLOR_MAX as int, SCALE as int);
    lemma_mul_bound(c.r as int, f2, COLOR_MAX as int, SCALE as int);
    lemma_mul_bound(c.g as int, f2, COLOR_MAX as int, SCALE as int);
    lemma_mul_bound(c.b as int, f2, COLOR_MAX as int, SCALE as int);
    lemma_tdiv_bound(c.r * f1, SCALE as int, COLOR_MAX as int);
    lemma_tdiv_bound(c.g * f1, SCALE as int, COLOR_MAX as int);
    lemma_tdiv_bound(c.b * f1, SCALE as int, COLOR_MAX as int);
    lemma_tdiv_bound(c.r * f2, SCALE as int, COLOR_MAX as int);
    lemma_tdiv_bound(c.g * f2, SCALE as int, COLOR_MAX as int);
    lemma_tdiv_bound(c.b * f2, SCALE as int, COLOR_MAX as int);
}

} // verus!

//! The camera: projecting pixels into world-space rays, marching each
//! ray to the nearest object, and rendering the whole glyph grid; plus
//! the movement commands that steer the camera between frames.

use vstd::prelude::*;

use crate::color::Color;
use crate::fx::SCALE;
use crate::fx::lemma_tdiv_parts;
use crate::fx::muldiv_trunc;
use crate::fx::tdiv;
use crate::pixel::Pixel;
use crate::pixel::s_pixel_char;
use crate::scene::Light;
use crate::scene::Object;
use crate::scene::PT_MAX;
use crate::scene::Scene;
use crate::scene::WORLD_MAX;
use crate::scene::object_wf;
use crate::scene::s_obj_distance;
use crate::scene::s_obj_shade;
use crate::scene::scene_wf;
use crate::vec3::Vector;
use crate::vec3::in_bounds;
use crate::vec3::lemma_comp_le_mag;
use crate::vec3::s_add;
use crate::vec3::s_mag;
use crate::vec3::s_ratio;

verus! {

/// A march stops and reports a hit when the nearest surface is closer
/// than this: 0.1 world units.
pub const HIT_EPS: i64 = 102;

/// A march gives up when the nearest surface is at least this far:
/// the fixed-point far plane that keeps coordinates in range.
pub const FAR: i64 = 0x100_0000_0000;

/// Default step budget of a march.
pub const MARCH_STEPS: usize = 10;

/// Hard cap on the step budget, so marching cannot overflow a
/// coordinate.
pub const MARCH_STEPS_MAX: usize = 12;

/// Tangent of half of `deg` degrees, in sub-units, rounded to nearest.
pub open spec fn tan_half_q(deg: int) -> int {
    if deg <= 0 {
        9
    } else if deg == 1 {
        9
    } else if deg == 2 {
        18
    } else if deg == 3 {
        27
    } else if deg == 4 {
        36
    } else if deg == 5 {
        45
    } else if deg == 6 {
        54
    } else if deg == 7 {
        63
    } else if deg == 8 {
        72
    } else if deg == 9 {
        81
    } else if deg == 10 {
        90
    } else if deg == 11 {
        99
    } else if deg == 12 {
        108
    } else if deg == 13 {
        117
    } else if deg == 14 {
        126
    } else if deg == 15 {
        135
    } else if deg == 16 {
        144
    } else if deg == 17 {
        153
    } else if deg == 18 {
        162
    } else if deg == 19 {
        171
    } else if deg == 20 {
        181
    } else if deg == 21 {
        190
    } else if deg == 22 {
        199
    } else if deg == 23 {
        208
    } else if deg == 24 {
        218
    } else if deg == 25 {
        227
    } else if deg == 26 {
        236
    } else if deg == 27 {
        246
    } else if deg == 28 {
        255
    } else if deg == 29 {
        265
    } else if deg == 30 {
        274
    } else if deg == 31 {
        284
    } else if deg == 32 {
        294
    } else if deg == 33 {
        303
    } else if deg == 34 {
        313
    } else if deg == 35 {
        323
    } else if deg == 36 {
        333
    } else if deg == 37 {
        343
    } else if deg == 38 {
        353
    } else if deg == 39 {
        363
    } else if deg == 40 {
        373
    } else if deg == 41 {
        383
    } else if deg == 42 {
        393
    } else if deg == 43 {
        403
    } else if deg == 44 {
        414
    } else if deg == 45 {
        424
    } else if deg == 46 {
        435
    } else if deg == 47 {
        445
    } else if deg == 48 {
        456
    } else if deg == 49 {
        467
    } else if deg == 50 {
        477
    } else if deg == 51 {
        488
    } else if deg == 52 {
        499
    } else if deg == 53 {
        511
    } else if deg == 54 {
        522
    } else if deg == 55 {
        533
    } else if deg == 56 {
        544
    } else if deg == 57 {
        556
    } else if deg == 58 {
        568
    } else if deg == 59 {
        579
    } else if deg == 60 {
        591
    } else if deg == 61 {
        603
    } else if deg == 62 {
        615
    } else if deg == 63 {
        628
    } else if deg == 64 {
        640
    } else if deg == 65 {
        652
    } else if deg == 66 {
        665
    } else if deg == 67 {
        678
    } else if deg == 68 {
        691
    } else if deg == 69 {
        704
    } else if deg == 70 {
        717
    } else if deg == 71 {
        730
    } else if deg == 72 {
        744
    } else if deg == 73 {
        758
    } else if deg == 74 {
        772
    } else if deg == 75 {
        786
    } else if deg == 76 {
        800
    } else if deg == 77 {
        815
    } else if deg == 78 {
        829
    } else if deg == 79 {
        844
    } else if deg == 80 {
        859
    } else if deg == 81 {
        875
    } else if deg == 82 {
        890
    } else if deg == 83 {
        906
    } else if deg == 84 {
        922
    } else if deg == 85 {
        938
    } else if deg == 86 {
        955
    } else if deg == 87 {
        972
    } else if deg == 88 {
        989
    } else if deg == 89 {
        1006
    } else if deg == 90 {
        1024
    } else if deg == 91 {
        1042
    } else if deg == 92 {
        1060
    } else if deg == 93 {
        1079
    } else if deg == 94 {
        1098
    } else if deg == 95 {
        1117
    } else if deg == 96 {
        1137
    } else if deg == 97 {
        1157
    } else if deg == 98 {
        1178
    } else if deg == 99 {
        1199
    } else if deg == 100 {
        1220
    } else if deg == 101 {
        1242
    } else if deg == 102 {
        1265
    } else if deg == 103 {
        1287
    } else if deg == 104 {
        1311
    } else if deg == 105 {
        1335
    } else if deg == 106 {
        1359
    } else if deg == 107 {
        1384
    } else if deg == 108 {
        1409
    } else if deg == 109 {
        1436
    } else if deg == 110 {
        1462
    } else if deg == 111 {
        1490
    } else if deg == 112 {
        1518
    } else if deg == 113 {
        1547
    } else if deg == 114 {
        1577
    } else if deg == 115 {
        1607
    } else if deg == 116 {
        1639
    } else if deg == 117 {
        1671
    } else if deg == 118 {
        1704
    } else if deg == 119 {
        1738
    } else if deg == 120 {
        1774
    } else if deg == 121 {
        1810
    } else if deg == 122 {
        1847
    } else if deg == 123 {
        1886
    } else if deg == 124 {
        1926
    } else if deg == 125 {
        1967
    } else if deg == 126 {
        2010
    } else if deg == 127 {
        2054
    } else if deg == 128 {
        2100
    } else if deg == 129 {
        2147
    } else if deg == 130 {
        2196
    } else if deg == 131 {
        2247
    } else if deg == 132 {
        2300
    } else if deg == 133 {
        2355
    } else if deg == 134 {
        2412
    } else if deg == 135 {
        2472
    } else if deg == 136 {
        2534
    } else if deg == 137 {
        2600
    } else if deg == 138 {
        2668
    } else if deg == 139 {
        2739
    } else if deg == 140 {
        2813
    } else if deg == 141 {
        2892
    } else if deg == 142 {
        2974
    } else if deg == 143 {
        3060
    } else if deg == 144 {
        3152
    } else if deg == 145 {
        3248
    } else if deg == 146 {
        3349
    } else if deg == 147 {
        3457
    } else if deg == 148 {
        3571
    } else if deg == 149 {
        3692
    } else if deg == 150 {
        3822
    } else if deg == 151 {
        3960
    } else if deg == 152 {
        4107
    } else if deg == 153 {
        4265
    } else if deg == 154 {
        4435
    } else if deg == 155 {
        4619
    } else if deg == 156 {
        4818
    } else if deg == 157 {
        5033
    } else if deg == 158 {
        5268
    } else if deg == 159 {
        5525
    } else if deg == 160 {
        5807
    } else if deg == 161 {
        6119
    } else if deg == 162 {
        6465
    } else if deg == 163 {
        6852
    } else if deg == 164 {
        7286
    } else if deg == 165 {
        7778
    } else if deg == 166 {
        8340
    } else if deg == 167 {
        8988
    } else if deg == 168 {
        9743
    } else if deg == 169 {
        10635
    } else if deg == 170 {
        11704
    } else if deg == 171 {
        13011
    } else if deg == 172 {
        14644
    } else if deg == 173 {
        16742
    } else if deg == 174 {
        19539
    } else if deg == 175 {
        23453
    } else if deg == 176 {
        29324
    } else if deg == 177 {
        39105
    } else if deg == 178 {
        58665
    } else if deg == 179 {
        117339
    } else {
        117339
    }
}

/// Tangent of half of `deg` degrees, in sub-units, rounded to nearest.
pub fn tan_half(deg: u32) -> (t: i64)
    requires
        1 <= deg <= 179,
    ensures
        t == tan_half_q(deg as int),
        9 <= t <= 117339,
{
    match deg {
        1 => 9,
        2 => 18,
        3 => 27,
        4 => 36,
        5 => 45,
        6 => 54,
        7 => 63,
        8 => 72,
        9 => 81,
        10 => 90,
        11 => 99,
        12 => 108,
        13 => 117,
        14 => 126,
        15 => 135,
        16 => 144,
        17 => 153,
        18 => 162,
        19 => 171,
        20 => 181,
        21 => 190,
        22 => 199,
        23 => 208,
        24 => 218,
        25 => 227,
        26 => 236,
        27 => 246,
        28 => 255,
        29 => 265,
        30 => 274,
        31 => 284,
        32 => 294,
        33 => 303,
        34 => 313,
        35 => 323,
        36 => 333,
        37 => 343,
        38 => 353,
        39 => 363,
        40 => 373,
        41 => 383,
        42 => 393,
        43 => 403,
        44 => 414,
        45 => 424,
        46 => 435,
        47 => 445,
        48 => 456,
        49 => 467,
        50 => 477,
        51 => 488,
        52 => 499,
        53 => 511,
        54 => 522,
        55 => 533,
        56 => 544,
        57 => 556,
        58 => 568,
        59 => 579,
        60 => 591,
        61 => 603,
        62 => 615,
        63 => 628,
        64 => 640,
        65 => 652,
        66 => 665,
        67 => 678,
        68 => 691,
        69 => 704,
        70 => 717,
        71 => 730,
        72 => 744,
        73 => 758,
        74 => 772,
        75 => 786,
        76 => 800,
        77 => 815,
        78 => 829,
        79 => 844,
        80 => 859,
        81 => 875,
        82 => 890,
        83 => 906,
        84 => 922,
        85 => 938,
        86 => 955,
        87 => 972,
        88 => 989,
        89 => 1006,
        90 => 1024,
        91 => 1042,
        92 => 1060,
        93 => 1079,
        94 => 1098,
        95 => 1117,
        96 => 1137,
        97 => 1157,
        98 => 1178,
        99 => 1199,
        100 => 1220,
        101 => 1242,
        102 => 1265,
        103 => 1287,
        104 => 1311,
        105 => 1335,
        106 => 1359,
        107 => 1384,
        108 => 1409,
        109 => 1436,
        110 => 1462,
        111 => 1490,
        112 => 1518,
        113 => 1547,
        114 => 1577,
        115 => 1607,
        116 => 1639,
        117 => 1671,
        118 => 1704,
        119 => 1738,
        120 => 1774,
        121 => 1810,
        122 => 1847,
        123 => 1886,
        124 => 1926,
        125 => 1967,
        126 => 2010,
        127 => 2054,
        128 => 2100,
        129 => 2147,
        130 => 2196,
        131 => 2247,
        132 => 2300,
        133 => 2355,
        134 => 2412,
        135 => 2472,
        136 => 2534,
        137 => 2600,
        138 => 2668,
        139 => 2739,
        140 => 2813,
        141 => 2892,
        142 => 2974,
        143 => 3060,
        144 => 3152,
        145 => 3248,
        146 => 3349,
        147 => 3457,
        148 => 3571,
        149 => 3692,
        150 => 3822,
        151 => 3960,
        152 => 4107,
        153 => 4265,
        154 => 4435,
        155 => 4619,
        156 => 4818,
        157 => 5033,
        158 => 5268,
        159 => 5525,
        160 => 5807,
        161 => 6119,
        162 => 6465,
        163 => 6852,
        164 => 7286,
        165 => 7778,
        166 => 8340,
        167 => 8988,
        168 => 9743,
        169 => 10635,
        170 => 11704,
        171 => 13011,
        172 => 14644,
        173 => 16742,
        174 => 19539,
        175 => 23453,
        176 => 29324,
        177 => 39105,
        178 => 58665,
        179 => 117339,
        _ => 9,
    }
}

#[derive(Clone, Copy, PartialEq, Eq, Structural, Debug)]
pub struct Camera {
    pub w: u32,
    pub h: u32,
    pub fov: u32,
    pub position: Vector,
}

/// A camera the renderer can drive: a positive resolution the machine
/// arithmetic accommodates, a field of view under half a turn, and a
/// position within the world bounds.
pub open spec fn camera_wf(c: Camera) -> bool {
    &&& 1 <= c.w <= 4096
    &&& 1 <= c.h <= 4096
    &&& 1 <= c.fov <= 179
    &&& in_bounds(c.position, WORLD_MAX as int)
}

/// The projection plane distance implied by the field of view and the
/// horizontal resolution: `(w / 2) / tan(fov / 2)`, in sub-units.
pub open spec fn s_range(c: Camera) -> int {
    tdiv(c.w * 524288, tan_half_q(c.fov as int))
}

/// The movement commands an input source can yield.
#[derive(Clone, Copy, PartialEq, Eq, Structural, Debug)]
pub enum Command {
    Up,
    Down,
    Left,
    Right,
    Forward,
    Back,
    Noop,
}

/// Where one command moves the camera: one world unit per keypress.
pub open spec fn s_move(p: Vector, cmd: Command) -> Vector {
    match cmd {
        Command::Up => Vector { x: p.x, y: (p.y - 1024) as i64, z: p.z },
        Command::Down => Vector { x: p.x, y: (p.y + 1024) as i64, z: p.z },
        Command::Left => Vector { x: (p.x - 1024) as i64, y: p.y, z: p.z },
        Command::Right => Vector { x: (p.x + 1024) as i64, y: p.y, z: p.z },
        Command::Forward => Vector { x: p.x, y: p.y, z: (p.z + 1024) as i64 },
        Command::Back => Vector { x: p.x, y: p.y, z: (p.z - 1024) as i64 },
        Command::Noop => p,
    }
}

/// The nearest object to `p`, by signed distance, resolved by a fold in
/// scene order in which only a strictly smaller distance replaces the
/// current minimum: ties keep the earliest object.
pub open spec fn s_find_nearest(objs: Seq<Object>, p: Vector) -> (int, int)
    recommends
        objs.len() >= 1,
    decreases objs.len(),
{
    if objs.len() <= 1 {
        (0, s_obj_distance(objs[0], p))
    } else {
        let prev = s_find_nearest(objs.drop_last(), p);
        let dl = s_obj_distance(objs.last(), p);
        if dl < prev.1 {
            (objs.len() - 1, dl)
        } else {
            prev
        }
    }
}

/// Sphere tracing along `dir` from `point`: stop at a surface within
/// `HIT_EPS`, give up past the far plane or when the budget runs out,
/// otherwise advance by the nearest distance along the normalized
/// direction.
pub open spec fn s_march(objs: Seq<Object>, point: Vector, dir: Vector, fuel: nat) -> Option<
    (int, Vector),
>
    decreases fuel,
{
    if fuel == 0 {
        None
    } else {
        let nr = s_find_nearest(objs, point);
        if nr.1 < HIT_EPS {
            Some((nr.0, point))
        } else if nr.1 >= FAR {
            None
        } else {
            s_march(objs, s_add(point, s_ratio(dir, nr.1, s_mag(dir))), dir, (fuel - 1) as nat)
        }
    }
}

/// The world-space ray direction of pixel `(i, j)`: the pixel offset
/// from the screen center, at the projection plane distance.
pub open spec fn s_ray_dir(c: Camera, i: int, j: int) -> Vector {
    Vector {
        x: ((2 * i - c.w) * 512) as i64,
        y: ((2 * j - c.h) * 512) as i64,
        z: s_range(c) as i64,
    }
}

/// The glyph pixel `(i, j)` renders to: the quantized shade of the hit
/// object, or the background glyph where the march found nothing.
pub open spec fn s_pixel_at(c: Camera, objs: Seq<Object>, lights: Seq<Light>, i: int, j: int) -> char {
    match s_march(objs, c.position, s_ray_dir(c, i, j), MARCH_STEPS as nat) {
        Some(hit) => s_pixel_char(s_obj_shade(objs[hit.0], hit.1, lights)),
        None => ' ',
    }
}

/// The first-minimum fold returns a witness index: a real entry whose
/// distance no entry beats, and which every strictly earlier entry
/// strictly exceeds.
pub proof fn lemma_find_nearest_first_min(objs: Seq<Object>, p: Vector)
    requires
        objs.len() >= 1,
    ensures
        0 <= s_find_nearest(objs, p).0 < objs.len(),
        s_find_nearest(objs, p).1 == s_obj_distance(objs[s_find_nearest(objs, p).0], p),
        forall|i: int|
            0 <= i < objs.len() ==> s_find_nearest(objs, p).1 <= #[trigger] s_obj_distance(
                objs[i],
                p,
            ),
        forall|i: int|
            0 <= i < s_find_nearest(objs, p).0 ==> s_find_nearest(objs, p).1 < #[trigger] s_obj_distance(
                objs[i],
                p,
            ),
    decreases objs.len(),
{
    if objs.len() > 1 {
        let pre = objs.drop_last();
        lemma_find_nearest_first_min(pre, p);
        assert(forall|i: int| 0 <= i < pre.len() ==> pre[i] == objs[i]);
        assert(objs.last() == objs[objs.len() - 1]);
    }
}

impl Camera {
    /// The projection plane distance for this camera, in sub-units.
    pub fn range(&self) -> (r: i64)
        requires
            camera_wf(*self),
        ensures
            r == s_range(*self),
            1 <= r <= WORLD_MAX,
    {
        let t: i64 = tan_half(self.fov);
        proof {
            assert(0x7fff_ffff_ffff_ffff * (t as int) >= 0x7fff_ffff_ffff_ffff * 9)
                by (nonlinear_arith)
                requires
                    t >= 9,
            ;
        }
        let r: i64 = muldiv_trunc(self.w as i64, 524288, t);
        proof {
            let a = (self.w as int) * 524288;
            lemma_tdiv_parts(a, t as int);
            assert(r <= a) by (nonlinear_arith)
                requires
                    r == tdiv(a, t as int),
                    tdiv(a, t as int) * (t as int) <= a,
                    tdiv(a, t as int) >= 0,
                    t >= 1,
                    a >= 0,
            ;
            assert(r >= 1) by (nonlinear_arith)
                requires
                    r == tdiv(a, t as int),
                    a < tdiv(a, t as int) * (t as int) + (t as int),
                    a >= 524288,
                    1 <= t <= 117339,
            ;
        }
        r
    }

    /// Apply one movement command: the position moves one world unit,
    /// nothing else changes.
    pub fn apply(&mut self, cmd: Command)
        requires
            in_bounds(old(self).position, PT_MAX as int),
        ensures
            final(self).w == old(self).w,
            final(self).h == old(self).h,
            final(self).fov == old(self).fov,
            final(self).position == s_move(old(self).position, cmd),
    {
        let p = self.position;
        match cmd {
            Command::Up => {
                self.position = Vector { x: p.x, y: p.y - SCALE, z: p.z };
            },
            Command::Down => {
                self.position = Vector { x: p.x, y: p.y + SCALE, z: p.z };
            },
            Command::Left => {
                self.position = Vector { x: p.x - SCALE, y: p.y, z: p.z };
            },
            Command::Right => {
                self.position = Vector { x: p.x + SCALE, y: p.y, z: p.z };
            },
            Command::Forward => {
                self.position = Vector { x: p.x, y: p.y, z: p.z + SCALE };
            },
            Command::Back => {
                self.position = Vector { x: p.x, y: p.y, z: p.z - SCALE };
            },
            Command::Noop => {},
        }
    }

    /// The nearest object to `point` and its signed distance, ties
    /// resolved to the earliest object in scene order.
    pub fn find_nearest(scene: &Scene, point: Vector) -> (res: (usize, i64))
        requires
            scene.objects@.len() >= 1,
            forall|i: int| 0 <= i < scene.objects@.len() ==> object_wf(#[trigger] scene.objects@[i]),
            in_bounds(point, PT_MAX as int),
        ensures
            res.0 < scene.objects@.len(),
            (res.0 as int, res.1 as int) == s_find_nearest(scene.objects@, point),
    {
        let objs = &scene.objects;
        let mut best_i: usize = 0;
        let mut best_d: i64 = objs[0].distance(point);
        let mut k: usize = 1;
        proof {
            assert(scene.objects@.take(1).len() == 1);
            assert(scene.objects@.take(1)[0] == scene.objects@[0]);
        }
        while k < objs.len()
            invariant
                1 <= k <= scene.objects@.len(),
                scene.objects@.len() >= 1,
                forall|i: int|
                    0 <= i < scene.objects@.len() ==> object_wf(#[trigger] scene.objects@[i]),
                in_bounds(point, PT_MAX as int),
                objs == &scene.objects,
                best_i < k,
                (best_i as int, best_d as int) == s_find_nearest(scene.objects@.take(k as int), point),
            decreases scene.objects@.len() - k,
        {
            let d: i64 = objs[k].distance(point);
            proof {
                assert(scene.objects@.take(k as int + 1).drop_last() =~= scene.objects@.take(
                    k as int,
                ));
                assert(scene.objects@.take(k as int + 1).last() == scene.objects@[k as int]);
            }
            if d < best_d {
                best_i = k;
                best_d = d;
            }
            k = k + 1;
        }
        proof {
            assert(scene.objects@.take(scene.objects@.len() as int) =~= scene.objects@);
        }
        (best_i, best_d)
    }

    /// March a ray from `origin` along `dir` through the scene.
    pub fn march(scene: &Scene, origin: Vector, dir: Vector, steps: usize) -> (hit: Option<
        (usize, Vector),
    >)
        requires
            scene.objects@.len() >= 1,
            forall|i: int| 0 <= i < scene.objects@.len() ==> object_wf(#[trigger] scene.objects@[i]),
            in_bounds(origin, WORLD_MAX as int),
            in_bounds(dir, WORLD_MAX as int),
            s_mag(dir) >= 1,
            steps <= MARCH_STEPS_MAX,
        ensures
            match hit {
                Some(h) => {
                    &&& s_march(scene.objects@, origin, dir, steps as nat) == Some(
                        (h.0 as int, h.1),
                    )
                    &&& h.0 < scene.objects@.len()
                    &&& in_bounds(h.1, PT_MAX as int)
                },
                None => s_march(scene.objects@, origin, dir, steps as nat) is None,
            },
    {
        let mdir: i64 = dir.magnitude();
        let mut point = origin;
        let mut k: usize = 0;
        while k < steps
            invariant
                k <= steps,
                steps <= MARCH_STEPS_MAX,
                scene.objects@.len() >= 1,
                forall|i: int|
                    0 <= i < scene.objects@.len() ==> object_wf(#[trigger] scene.objects@[i]),
                in_bounds(dir, WORLD_MAX as int),
                s_mag(dir) >= 1,
                mdir == s_mag(dir),
                in_bounds(point, WORLD_MAX as int + k as int * (FAR as int)),
                s_march(scene.objects@, point, dir, (steps - k) as nat) == s_march(
                    scene.objects@,
                    origin,
                    dir,
                    steps as nat,
                ),
            decreases steps - k,
        {
            let nr = Self::find_nearest(scene, point);
            let d: i64 = nr.1;
            if d < HIT_EPS {
                return Some((nr.0, point));
            }
            if d >= FAR {
                return None;
            }
            proof {
                lemma_comp_le_mag(dir);
            }
            let step = dir.scale_ratio(d, mdir);
            point = point.add(step);
            k = k + 1;
        }
        None
    }

    /// Render the whole frame: one glyph per pixel, row-major.
    pub fn render(&self, scene: &Scene) -> (grid: Vec<Vec<char>>)
        requires
            camera_wf(*self),
            scene_wf(*scene),
        ensures
            grid@.len() == self.h as int,
            forall|j: int| 0 <= j < self.h ==> (#[trigger] grid@[j])@.len() == self.w as int,
            forall|j: int, i: int|
                0 <= j < self.h && 0 <= i < self.w ==> #[trigger] grid@[j]@[i] == s_pixel_at(
                    *self,
                    scene.objects@,
                    scene.lights@,
                    i,
                    j,
                ),
    {
        let rng: i64 = self.range();
        let mut grid: Vec<Vec<char>> = Vec::new();
        let mut j: usize = 0;
        while j < self.h as usize
            invariant
                j <= self.h as usize,
                camera_wf(*self),
                scene_wf(*scene),
                rng == s_range(*self),
                1 <= rng <= WORLD_MAX,
                grid@.len() == j as int,
                forall|j2: int| 0 <= j2 < j ==> (#[trigger] grid@[j2])@.len() == self.w as int,
                forall|j2: int, i2: int|
                    0 <= j2 < j && 0 <= i2 < self.w ==> #[trigger] grid@[j2]@[i2] == s_pixel_at(
                        *self,
                        scene.objects@,
                        scene.lights@,
                        i2,
                        j2,
                    ),
            decreases self.h - j,
        {
            let mut row: Vec<char> = Vec::new();
            let mut i: usize = 0;
            while i < self.w as usize
                invariant
                    i <= self.w as usize,
                    camera_wf(*self),
                    scene_wf(*scene),
                    rng == s_range(*self),
                    1 <= rng <= WORLD_MAX,
                    j < self.h as usize,
                    row@.len() == i as int,
                    forall|i2: int|
                        0 <= i2 < i ==> #[trigger] row@[i2] == s_pixel_at(
                            *self,
                            scene.objects@,
                            scene.lights@,
                            i2,
                            j as int,
                        ),
                decreases self.w - i,
            {
                let dir = Vector {
                    x: (2 * (i as i64) - self.w as i64) * 512,
                    y: (2 * (j as i64) - self.h as i64) * 512,
                    z: rng,
                };
                proof {
                    lemma_comp_le_mag(dir);
                }
                let hit = Self::march(scene, self.position, dir, MARCH_STEPS);
                match hit {
                    Some(h) => {
                        let c: Color = scene.objects[h.0].shade(h.1, &scene.lights);
                        let px = Pixel::new(c);
                        row.push(px.0);
                    },
                    None => {
                        let px = Pixel::default();
                        row.push(px.0);
                    },
                }
                i = i + 1;
            }
            grid.push(row);
            j = j + 1;
        }
        grid
    }
}

/// Rendering is deterministic: two grids that both satisfy the render
/// contract for the same camera and scene are the same grid.
pub proof fn lemma_render_deterministic(
    c: Camera,
    objs: Seq<Object>,
    lights: Seq<Light>,
    g1: Seq<Seq<char>>,
    g2: Seq<Seq<char>>,
)
    requires
        g1.len() == c.h as int,
        g2.len() == c.h as int,
        forall|j: int| 0 <= j < c.h ==> (#[trigger] g1[j]).len() == c.w as int,
        forall|j: int| 0 <= j < c.h ==> (#[trigger] g2[j]).len() == c.w as int,
        forall|j: int, i: int|
            0 <= j < c.h && 0 <= i < c.w ==> #[trigger] g1[j][i] == s_pixel_at(
                c,
                objs,
                lights,
                i,
                j,
            ),
        forall|j: int, i: int|
            0 <= j < c.h && 0 <= i < c.w ==> #[trigger] g2[j][i] == s_pixel_at(
                c,
                objs,
                lights,
                i,
                j,
            ),
    ensures
        g1 == g2,
{
    assert forall|j: int| 0 <= j < c.h implies (#[trigger] g1[j]) =~= g2[j] by {
        assert(forall|i: int| 0 <= i < c.w ==> (#[trigger] g1[j][i]) == g2[j][i]);
    }
    assert(g1 =~~= g2);
}

/// Five moves right shift the camera five world units along x and
/// nothing else.
pub proof fn lemma_five_rights(p: Vector)
    requires
        in_bounds(p, WORLD_MAX as int),
    ensures
        s_move(
            s_move(s_move(s_move(s_move(p, Command::Right), Command::Right), Command::Right), Command::Right),
            Command::Right,
        ) == (Vector { x: (p.x + 5 * 1024) as i64, y: p.y, z: p.z }),
{
}

} // verus!

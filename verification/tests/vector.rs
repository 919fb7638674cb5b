use asciiray::fx::{clamp, isqrt, muldiv_trunc, SCALE};
use asciiray::vec3::{Ray, Vector};

#[test]
fn new_is_origin() {
    let v = Vector::new();
    assert_eq!((v.x, v.y, v.z), (0, 0, 0));
}

#[test]
fn add_sub_are_componentwise() {
    let a = Vector { x: 1024, y: -2048, z: 3072 };
    let b = Vector { x: 512, y: 512, z: -512 };
    let s = a.add(b);
    assert_eq!((s.x, s.y, s.z), (1536, -1536, 2560));
    let d = a.sub(b);
    assert_eq!((d.x, d.y, d.z), (512, -2560, 3584));
}

#[test]
fn scale_is_fixed_point() {
    // 2.0 * 1.5 == 3.0 in sub-units
    let v = Vector { x: 2048, y: 0, z: -2048 };
    let r = v.scale(1536);
    assert_eq!((r.x, r.y, r.z), (3072, 0, -3072));
}

#[test]
fn dot_of_axis_vectors() {
    // (2, 0, 0) . (3, 0, 0) == 6 world units
    let a = Vector { x: 2048, y: 0, z: 0 };
    let b = Vector { x: 3072, y: 0, z: 0 };
    assert_eq!(a.dot(b), 6144);
    // orthogonal vectors
    let c = Vector { x: 0, y: 3072, z: 0 };
    assert_eq!(a.dot(c), 0);
}

#[test]
fn dotself_is_squared_length() {
    let v = Vector { x: 3072, y: 4096, z: 0 };
    // 3^2 + 4^2 == 25 world units
    assert_eq!(v.dotself(), 25600);
}

#[test]
fn magnitude_of_three_four_five() {
    let v = Vector { x: 3072, y: 4096, z: 0 };
    assert_eq!(v.magnitude(), 5120);
}

#[test]
fn magnitude_rounds_down() {
    // |(1, 1, 1)| = sqrt(3) ~ 1.732; floor in sub-units is 1773
    let v = Vector { x: 1024, y: 1024, z: 1024 };
    assert_eq!(v.magnitude(), 1773);
}

#[test]
fn normalize_gives_near_unit_vector() {
    let v = Vector { x: 3072, y: 4096, z: 0 };
    let n = v.normalize();
    assert_eq!((n.x, n.y, n.z), (614, 819, 0));
    // unit magnitude within fixed-point rounding
    let m = n.magnitude();
    assert!(SCALE - 5 <= m && m <= SCALE + 1, "magnitude {}", m);
}

#[test]
fn normalize_axis_is_exact() {
    let v = Vector { x: 0, y: 0, z: 51200 };
    let n = v.normalize();
    assert_eq!((n.x, n.y, n.z), (0, 0, 1024));
    assert_eq!(n.magnitude(), 1024);
}

#[test]
fn ray_vec_subtracts_origin() {
    let r = Ray {
        origin: Vector { x: 1024, y: 1024, z: 1024 },
        direction: Vector { x: 3072, y: 2048, z: 1024 },
    };
    let v = r.vec();
    assert_eq!((v.x, v.y, v.z), (2048, 1024, 0));
}

#[test]
fn clamp_cuts_both_ends() {
    assert_eq!(clamp(-5, 0, 1024), 0);
    assert_eq!(clamp(2000, 0, 1024), 1024);
    assert_eq!(clamp(512, 0, 1024), 512);
}

#[test]
fn isqrt_exact_and_floor() {
    assert_eq!(isqrt(0), 0);
    assert_eq!(isqrt(1), 1);
    assert_eq!(isqrt(3), 1);
    assert_eq!(isqrt(4), 2);
    assert_eq!(isqrt(1730150400), 41595);
    assert_eq!(isqrt(u64::MAX as u128), 0xffff_ffff);
}

#[test]
fn muldiv_truncates_toward_zero() {
    assert_eq!(muldiv_trunc(7, 1, 2), 3);
    assert_eq!(muldiv_trunc(-7, 1, 2), -3);
    assert_eq!(muldiv_trunc(-35840, 1024, 41595), -882);
}

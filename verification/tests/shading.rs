use asciiray::color::{blue, green, red, white, Color};
use asciiray::pixel::Pixel;
use asciiray::scene::{Light, Object, Scene, Sphere};
use asciiray::camera::Camera;
use asciiray::vec3::Vector;

fn unit_sphere_at_z50() -> Sphere {
    Sphere { center: Vector { x: 0, y: 0, z: 51200 }, radius: 5120, color: red() }
}

#[test]
fn palette_constants() {
    assert_eq!(white(), Color { r: 1024, g: 1024, b: 1024 });
    assert_eq!(red(), Color { r: 1024, g: 0, b: 0 });
    assert_eq!(green(), Color { r: 0, g: 1024, b: 0 });
    assert_eq!(blue(), Color { r: 0, g: 0, b: 1024 });
}

#[test]
fn color_scale_and_add() {
    let c = Color { r: 1024, g: 512, b: 0 }.scale(512);
    assert_eq!(c, Color { r: 512, g: 256, b: 0 });
    let s = c.add(Color { r: 100, g: 100, b: 100 });
    assert_eq!(s, Color { r: 612, g: 356, b: 100 });
}

#[test]
fn quantize_zero_brightness_is_darkest_glyph() {
    let p = Pixel::new(Color { r: 0, g: 0, b: 0 });
    assert_eq!(p.0, '.');
}

#[test]
fn quantize_full_brightness_is_background() {
    // brightness exactly 1.0 saturates to background, not to 'M'
    let p = Pixel::new(Color { r: 1024, g: 1024, b: 1024 });
    assert_eq!(p.0, ' ');
    let p = Pixel::new(Color { r: 2048, g: 2048, b: 2048 });
    assert_eq!(p.0, ' ');
}

#[test]
fn quantize_negative_brightness_is_background() {
    let p = Pixel::new(Color { r: -1024, g: -1024, b: -1024 });
    assert_eq!(p.0, ' ');
    let p = Pixel::new(Color { r: -1, g: -1, b: -1 });
    assert_eq!(p.0, ' ');
}

#[test]
fn quantize_steps_through_palette() {
    // band k covers brightness [k * 1024/6, (k+1) * 1024/6)
    assert_eq!(Pixel::new(Color { r: 170, g: 170, b: 170 }).0, '.');
    assert_eq!(Pixel::new(Color { r: 171, g: 171, b: 171 }).0, '-');
    assert_eq!(Pixel::new(Color { r: 512, g: 512, b: 512 }).0, '*');
    assert_eq!(Pixel::new(Color { r: 1023, g: 1023, b: 1023 }).0, 'M');
}

#[test]
fn default_pixel_is_background() {
    assert_eq!(Pixel::default().0, ' ');
}

#[test]
fn sphere_distance_along_axis() {
    let s = unit_sphere_at_z50();
    // 50 units away less a 5 unit radius
    assert_eq!(s.distance(Vector { x: 0, y: 0, z: 0 }), 46080);
}

#[test]
fn sphere_distance_on_surface_is_zero() {
    let s = unit_sphere_at_z50();
    assert_eq!(s.distance(Vector { x: 0, y: 0, z: 46080 }), 0);
    assert_eq!(s.distance(Vector { x: 0, y: 0, z: 56320 }), 0);
}

#[test]
fn sphere_distance_inside_is_negative() {
    let s = unit_sphere_at_z50();
    assert_eq!(s.distance(Vector { x: 0, y: 0, z: 51200 }), -5120);
}

#[test]
fn get_normal_points_outward() {
    let s = unit_sphere_at_z50();
    let n = s.get_normal(Vector { x: 0, y: 0, z: 46080 });
    assert_eq!((n.x, n.y, n.z), (0, 0, -1024));
}

#[test]
fn shade_ambient_plus_one_light() {
    let s = unit_sphere_at_z50();
    let lights = vec![Light {
        position: Vector { x: -5120, y: -20480, z: 10240 },
        color: white(),
    }];
    let c = s.shade(Vector { x: 0, y: 0, z: 46080 }, &lights);
    assert_eq!(c, Color { r: 748, g: 441, b: 441 });
}

#[test]
fn shade_without_lights_is_ambient_only() {
    let s = unit_sphere_at_z50();
    let c = s.shade(Vector { x: 0, y: 0, z: 46080 }, &vec![]);
    // 0.3 of the red surface color
    assert_eq!(c, Color { r: 307, g: 0, b: 0 });
}

#[test]
fn shade_light_behind_surface_adds_nothing() {
    let s = unit_sphere_at_z50();
    // light straight behind the hit point, past the sphere
    let lights = vec![Light {
        position: Vector { x: 0, y: 0, z: 102400 },
        color: white(),
    }];
    let c = s.shade(Vector { x: 0, y: 0, z: 46080 }, &lights);
    assert_eq!(c, Color { r: 307, g: 0, b: 0 });
}

#[test]
fn find_nearest_picks_closest() {
    let far = Object::Sphere(unit_sphere_at_z50());
    let near = Object::Sphere(Sphere {
        center: Vector { x: 0, y: 0, z: 20480 },
        radius: 1024,
        color: red(),
    });
    let sc = Scene::new(vec![far, near], vec![]);
    let (i, d) = Camera::find_nearest(&sc, Vector { x: 0, y: 0, z: 0 });
    assert_eq!(i, 1);
    assert_eq!(d, 19456);
}

#[test]
fn find_nearest_tie_keeps_first() {
    // two objects at the same distance: the earlier one wins, every call
    let a = Object::Sphere(unit_sphere_at_z50());
    let b = Object::Sphere(Sphere {
        center: Vector { x: 0, y: 0, z: -51200 },
        radius: 5120,
        color: green(),
    });
    let sc = Scene::new(vec![a, b], vec![]);
    for _ in 0..3 {
        let (i, d) = Camera::find_nearest(&sc, Vector { x: 0, y: 0, z: 0 });
        assert_eq!(i, 0);
        assert_eq!(d, 46080);
    }
}

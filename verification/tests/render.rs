use asciiray::camera::{Camera, Command};
use asciiray::color::white;
use asciiray::scene::{Light, Object, Scene, Sphere};
use asciiray::vec3::Vector;

fn reference_scene() -> Scene {
    Scene::new(
        vec![Object::Sphere(Sphere {
            center: Vector { x: 0, y: 0, z: 51200 },
            radius: 5120,
            color: asciiray::color::red(),
        })],
        vec![Light {
            position: Vector { x: -5120, y: -20480, z: 10240 },
            color: white(),
        }],
    )
}

fn reference_camera() -> Camera {
    Camera { w: 80, h: 24, fov: 30, position: Vector { x: 0, y: 0, z: 0 } }
}

#[test]
fn range_at_30_degrees() {
    // (80 / 2) / tan(15 deg) ~ 149.5 world units
    let r = reference_camera().range();
    assert_eq!(r, 153076);
}

#[test]
fn center_pixel_hits_sphere() {
    let cam = reference_camera();
    let grid = cam.render(&reference_scene());
    assert_eq!(grid.len(), 24);
    assert_eq!(grid[0].len(), 80);
    // the projected sphere center resolves to a lit glyph
    assert_eq!(grid[12][40], '*');
}

#[test]
fn far_pixels_are_background() {
    let cam = reference_camera();
    let grid = cam.render(&reference_scene());
    assert_eq!(grid[0][0], ' ');
    assert_eq!(grid[0][79], ' ');
    assert_eq!(grid[23][0], ' ');
    assert_eq!(grid[23][79], ' ');
}

#[test]
fn render_twice_is_identical() {
    let cam = reference_camera();
    let sc = reference_scene();
    let g1 = cam.render(&sc);
    let g2 = cam.render(&sc);
    assert_eq!(g1, g2);
}

#[test]
fn five_rights_move_x_by_five_units() {
    let mut cam = reference_camera();
    for _ in 0..5 {
        cam.apply(Command::Right);
    }
    assert_eq!(cam.position, Vector { x: 5120, y: 0, z: 0 });
    assert_eq!((cam.w, cam.h, cam.fov), (80, 24, 30));
}

#[test]
fn command_mapping_matches_keys() {
    let mut cam = reference_camera();
    cam.apply(Command::Up);
    assert_eq!(cam.position, Vector { x: 0, y: -1024, z: 0 });
    cam.apply(Command::Down);
    cam.apply(Command::Down);
    assert_eq!(cam.position, Vector { x: 0, y: 1024, z: 0 });
    cam.apply(Command::Left);
    assert_eq!(cam.position.x, -1024);
    cam.apply(Command::Right);
    cam.apply(Command::Forward);
    assert_eq!(cam.position.z, 1024);
    cam.apply(Command::Back);
    cam.apply(Command::Noop);
    assert_eq!(cam.position, Vector { x: 0, y: 1024, z: 0 });
}

#[test]
fn moving_camera_changes_the_view() {
    let sc = reference_scene();
    let mut cam = reference_camera();
    let before = cam.render(&sc);
    // walk far to the side: the sphere leaves the projected center
    for _ in 0..40 {
        cam.apply(Command::Left);
    }
    let after = cam.render(&sc);
    assert_ne!(before, after);
    assert_eq!(before[12][40], '*');
}

use worldview::camera::{Camera, LockData, MIN_THETA_FIX};
use worldview::coords::{SphericalPoint, Vec3Fix};
use worldview::fixmath::{HALF_PI_FIX, SCALE, TWO_PI_FIX};

fn locked_camera(offset: Option<SphericalPoint>) -> Camera {
    let mut cam = Camera::new(
        Vec3Fix::new(0, 0, 2 * SCALE),
        Vec3Fix::new(0, 0, -SCALE),
        Vec3Fix::new(0, SCALE, 0),
        SCALE,
        SCALE,
        2 * SCALE,
    );
    cam.lock(Vec3Fix::new(0, 0, 0), SCALE, offset);
    cam
}

fn offset_of(cam: &Camera) -> SphericalPoint {
    match cam.lock {
        Some(LockData { offset: Some(s), .. }) => s,
        _ => panic!("camera holds no locked offset"),
    }
}

#[test]
fn lock_turns_toward_centre_and_unlock_clears() {
    let mut cam = locked_camera(None);
    assert!(cam.is_locked());
    assert_eq!((cam.dir.x, cam.dir.y, cam.dir.z), (0, 0, -SCALE));
    cam.unlock();
    assert!(!cam.is_locked());
    assert_eq!((cam.pos.x, cam.pos.y, cam.pos.z), (0, 0, 2 * SCALE));
}

#[test]
fn degenerate_offset_resets_to_canonical_point() {
    let mut cam = locked_camera(None);
    cam.move_cam(&Vec3Fix::new(0, 0, -SCALE), SCALE, SCALE);
    let s = offset_of(&cam);
    assert_eq!((s.radius, s.theta, s.phi), (2 * SCALE, HALF_PI_FIX, 0));
    assert_eq!((cam.pos.x, cam.pos.y, cam.pos.z), (0, 0, 2 * SCALE));
    assert_eq!((cam.dir.x, cam.dir.y, cam.dir.z), (0, 0, -SCALE));
}

#[test]
fn forward_pan_converges_to_pole_guard() {
    let start = SphericalPoint::new(2 * SCALE, HALF_PI_FIX, 0);
    let mut cam = locked_camera(Some(start));
    let forward = Vec3Fix::new(0, 0, -SCALE);
    cam.move_cam(&forward, SCALE, SCALE);
    assert_eq!(offset_of(&cam).theta, HALF_PI_FIX - SCALE);
    cam.move_cam(&forward, SCALE, SCALE);
    assert_eq!(offset_of(&cam).theta, MIN_THETA_FIX);
    cam.move_cam(&forward, SCALE, SCALE);
    let s = offset_of(&cam);
    assert_eq!(s.theta, MIN_THETA_FIX);
    assert!(s.phi < TWO_PI_FIX);
}

#[test]
fn sideways_pan_wraps_azimuth() {
    let start = SphericalPoint::new(2 * SCALE, HALF_PI_FIX, 0);
    let mut cam = locked_camera(Some(start));
    let sideways = Vec3Fix::new(SCALE, 0, 0);
    for _ in 0..7 {
        cam.move_cam(&sideways, SCALE, SCALE);
        let phi = offset_of(&cam).phi;
        assert!(0 <= phi && phi < TWO_PI_FIX);
    }
    assert_eq!(offset_of(&cam).phi, 7 * SCALE - TWO_PI_FIX);
}

#[test]
fn zoom_steps_compose_like_their_product() {
    let start = SphericalPoint::new(5 * SCALE, HALF_PI_FIX, 0);
    let zoom_in = Vec3Fix::new(0, SCALE, 0);
    let mut twice = locked_camera(Some(start));
    twice.move_cam(&zoom_in, SCALE, 2 * SCALE);
    assert_eq!(offset_of(&twice).radius, 3 * SCALE);
    twice.move_cam(&zoom_in, SCALE, 2 * SCALE);
    let mut once = locked_camera(Some(start));
    once.move_cam(&zoom_in, SCALE, 4 * SCALE);
    assert_eq!(offset_of(&twice).radius, offset_of(&once).radius);
    assert_eq!(offset_of(&once).radius, 2 * SCALE);
}

#[test]
fn small_zoom_input_is_ignored() {
    let start = SphericalPoint::new(5 * SCALE, HALF_PI_FIX, 0);
    let mut cam = locked_camera(Some(start));
    cam.move_cam(&Vec3Fix::new(0, 9_000, 0), SCALE, 4 * SCALE);
    assert_eq!(offset_of(&cam).radius, 5 * SCALE);
}

#[test]
fn locking_onto_the_camera_itself_keeps_the_direction() {
    let mut cam = Camera::new(
        Vec3Fix::new(0, 0, 2 * SCALE),
        Vec3Fix::new(0, 0, -SCALE),
        Vec3Fix::new(0, SCALE, 0),
        SCALE,
        SCALE,
        2 * SCALE,
    );
    cam.lock(Vec3Fix::new(0, 0, 2 * SCALE), SCALE, None);
    assert_eq!((cam.dir.x, cam.dir.y, cam.dir.z), (0, 0, -SCALE));
    let p = cam.get_pos();
    assert_eq!((p.x, p.y, p.z), (0, 0, 2 * SCALE));
}

#[test]
fn free_flight_moves_along_view_axes() {
    let mut cam = Camera::new(
        Vec3Fix::new(0, 0, 2 * SCALE),
        Vec3Fix::new(0, 0, -SCALE),
        Vec3Fix::new(0, SCALE, 0),
        SCALE,
        SCALE,
        2 * SCALE,
    );
    cam.move_cam(&Vec3Fix::new(0, 0, -SCALE), SCALE, SCALE);
    assert_eq!((cam.pos.x, cam.pos.y, cam.pos.z), (0, 0, SCALE));
    cam.move_cam(&Vec3Fix::new(SCALE, 0, 0), SCALE, SCALE);
    assert_eq!((cam.pos.x, cam.pos.y, cam.pos.z), (SCALE, 0, SCALE));
    cam.move_cam(&Vec3Fix::new(0, SCALE, 0), SCALE, SCALE);
    assert_eq!((cam.pos.x, cam.pos.y, cam.pos.z), (SCALE, SCALE, SCALE));
    assert_eq!((cam.dir.x, cam.dir.y, cam.dir.z), (0, 0, -SCALE));
}

#[test]
fn locked_pan_recomputes_position_and_direction() {
    let start = SphericalPoint::new(2 * SCALE, HALF_PI_FIX, 0);
    let mut cam = locked_camera(Some(start));
    let forward = Vec3Fix::new(0, 0, -SCALE);
    cam.move_cam(&forward, SCALE, SCALE);
    let s = offset_of(&cam);
    let disp = s.to_vec();
    assert_eq!((cam.pos.x, cam.pos.y, cam.pos.z), (disp.x, disp.y, disp.z));
    let back = disp.normalize();
    assert_eq!((cam.dir.x, cam.dir.y, cam.dir.z), (-back.x, -back.y, -back.z));
}

use orbit_camera::fixed::UNIT;
use orbit_camera::orbit::{MAX_DISTANCE, MAX_PITCH, MAX_YAW, MIN_DISTANCE, MIN_PITCH, MIN_YAW, PI};
use orbit_camera::{
    rotate_camera, zoom_camera, DragScale, MouseMotion, MouseWheel, OrbitCamera, Point3,
};

fn pixels(x: i64, y: i64) -> MouseMotion {
    MouseMotion { delta_x: x * UNIT, delta_y: y * UNIT }
}

#[test]
fn drag_scale_must_not_be_zero() {
    assert!(DragScale::new(0, 720).is_none());
    assert!(DragScale::new(1280, 0).is_none());
    assert!(DragScale::new(0, 0).is_none());
    assert!(DragScale::new(1, 1).is_some());
    assert!(DragScale::new(u32::MAX, u32::MAX).is_some());
}

#[test]
fn zoom_brings_the_camera_nearer_by_the_sum() {
    let mut cameras = vec![
        OrbitCamera::new(None, 10 * UNIT, 0, 0),
        OrbitCamera::new(None, 50 * UNIT, 1, 2),
    ];
    zoom_camera(&mut cameras, &vec![MouseWheel { y: UNIT }, MouseWheel { y: 2_500_000 }]);
    assert_eq!(cameras[0].distance(), 6_500_000);
    assert_eq!(cameras[1].distance(), 46_500_000);
    assert_eq!((cameras[1].pitch(), cameras[1].yaw()), (1, 2));
    zoom_camera(&mut cameras, &vec![MouseWheel { y: -3 * UNIT }]);
    assert_eq!(cameras[0].distance(), 9_500_000);
    zoom_camera(&mut cameras, &vec![MouseWheel { y: 5 * UNIT }, MouseWheel { y: -5 * UNIT }]);
    assert_eq!(cameras[0].distance(), 9_500_000);
    zoom_camera(&mut cameras, &Vec::new());
    assert_eq!(cameras[0].distance(), 9_500_000);
    zoom_camera(&mut cameras, &vec![MouseWheel { y: 100 * UNIT }]);
    assert_eq!(cameras[0].distance(), MIN_DISTANCE);
    assert_eq!(cameras[1].distance(), MIN_DISTANCE);
    zoom_camera(&mut cameras, &vec![MouseWheel { y: -1_000 * UNIT }]);
    assert_eq!(cameras[0].distance(), MAX_DISTANCE);
}

#[test]
fn zoom_sums_before_it_clamps() {
    let mut cameras = vec![OrbitCamera::new(None, 10 * UNIT, 0, 0)];
    let events = vec![
        MouseWheel { y: i64::MAX },
        MouseWheel { y: i64::MAX },
        MouseWheel { y: i64::MIN },
        MouseWheel { y: i64::MIN },
        MouseWheel { y: 3 * UNIT },
    ];
    // the sum is 3 units less two steps
    zoom_camera(&mut cameras, &events);
    assert_eq!(cameras[0].distance(), 7 * UNIT + 2);
    zoom_camera(&mut cameras, &vec![MouseWheel { y: i64::MAX }, MouseWheel { y: i64::MAX }]);
    assert_eq!(cameras[0].distance(), MIN_DISTANCE);
    zoom_camera(&mut cameras, &vec![MouseWheel { y: i64::MIN }, MouseWheel { y: i64::MIN }]);
    assert_eq!(cameras[0].distance(), MAX_DISTANCE);
}

#[test]
fn rotate_needs_the_button() {
    let scale = DragScale::window_1280_by_720();
    let mut cameras = vec![OrbitCamera::new(None, 10 * UNIT, 100, 200)];
    cameras[0].set_focus(Point3::new(1, 2, 3));
    rotate_camera(&mut cameras, false, &vec![pixels(64, 36)], &scale);
    assert_eq!((cameras[0].pitch(), cameras[0].yaw()), (100, 200));
    assert_eq!(cameras[0].focus(), Point3::new(1, 2, 3));
    assert_eq!(cameras[0].distance(), 10 * UNIT);
}

#[test]
fn rotate_scales_pixels_to_radians() {
    let scale = DragScale::window_1280_by_720();
    let mut cameras = vec![OrbitCamera::new(None, 10 * UNIT, 0, 0)];
    // ten pixels to the right and down: 2π·10/1280 against the drag, π·10/720 with it
    rotate_camera(&mut cameras, true, &vec![pixels(10, 10)], &scale);
    assert_eq!(cameras[0].yaw(), -49_087);
    assert_eq!(cameras[0].pitch(), 43_633);
    rotate_camera(&mut cameras, true, &vec![pixels(-10, -10)], &scale);
    assert_eq!(cameras[0].yaw(), 0);
    assert_eq!(cameras[0].pitch(), 0);
    // motion of several events is summed before it is scaled
    rotate_camera(&mut cameras, true, &vec![pixels(3, 1), pixels(3, 4), pixels(4, 5)], &scale);
    assert_eq!(cameras[0].yaw(), -49_087);
    assert_eq!(cameras[0].pitch(), 43_633);
    assert_eq!(cameras[0].distance(), 10 * UNIT);
}

#[test]
fn rotate_by_the_window_is_a_full_turn() {
    let scale = DragScale::window_1280_by_720();
    let mut cameras = vec![OrbitCamera::new(None, 10 * UNIT, 0, 500_000)];
    rotate_camera(&mut cameras, true, &vec![pixels(1280, 0)], &scale);
    assert_eq!(cameras[0].yaw(), 500_000);
    assert_eq!(cameras[0].pitch(), 0);
    // half the width is half a turn
    rotate_camera(&mut cameras, true, &vec![pixels(-640, 0)], &scale);
    assert_eq!(cameras[0].yaw(), 500_000 + PI - 2 * PI);
    // half the height is a quarter turn, which the pitch cannot reach
    rotate_camera(&mut cameras, true, &vec![pixels(0, 360)], &scale);
    assert_eq!(cameras[0].pitch(), MAX_PITCH);
    rotate_camera(&mut cameras, true, &vec![pixels(0, -720)], &scale);
    assert_eq!(cameras[0].pitch(), MIN_PITCH);
}

#[test]
fn rotate_takes_the_scale_it_is_given() {
    let scale = DragScale::new(100, 50).unwrap();
    let mut cameras = vec![OrbitCamera::new(None, 10 * UNIT, 0, 0)];
    rotate_camera(&mut cameras, true, &vec![pixels(25, 10)], &scale);
    // a quarter of a turn against the drag, a fifth of half a turn with it
    assert_eq!(cameras[0].yaw(), -1_570_796);
    assert_eq!(cameras[0].pitch(), 628_318);
}

#[test]
fn rotate_turns_every_camera() {
    let scale = DragScale::window_1280_by_720();
    let mut cameras = vec![
        OrbitCamera::new(None, 10 * UNIT, 0, 0),
        OrbitCamera::new(None, 10 * UNIT, 1_000_000, 3_000_000),
        OrbitCamera::new(None, 10 * UNIT, -1_569_051, -3_141_593),
    ];
    rotate_camera(&mut cameras, true, &vec![pixels(-100, -100)], &scale);
    assert_eq!((cameras[0].yaw(), cameras[0].pitch()), (490_873, -436_332));
    assert_eq!((cameras[1].yaw(), cameras[1].pitch()), (3_490_873 - 2 * PI, 563_668));
    assert_eq!((cameras[2].yaw(), cameras[2].pitch()), (-3_141_593 + 490_873, MIN_PITCH));
}

#[test]
fn rotate_holds_absurd_motion_to_the_range() {
    let scale = DragScale::window_1280_by_720();
    let mut cameras = vec![OrbitCamera::new(None, 10 * UNIT, 0, 0)];
    let events = vec![
        MouseMotion { delta_x: i64::MAX, delta_y: i64::MAX },
        MouseMotion { delta_x: i64::MAX, delta_y: i64::MAX },
    ];
    rotate_camera(&mut cameras, true, &events, &scale);
    assert_eq!(cameras[0].pitch(), MAX_PITCH);
    let yaw = cameras[0].yaw();
    assert!(MIN_YAW <= yaw && yaw <= MAX_YAW);
    // the motion counts as i64::MAX
    let delta = -((i64::MAX as i128 * (2 * PI) as i128) / (1280 * UNIT as i128));
    assert_eq!((delta - yaw as i128) % (2 * PI as i128), 0);
}

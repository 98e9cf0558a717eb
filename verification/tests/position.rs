use orbit_camera::fixed::UNIT;
use orbit_camera::orbit::{MAX_DISTANCE, MAX_PITCH, MAX_YAW, MIN_PITCH, MIN_YAW, PI};
use orbit_camera::trig::{NORM_TOLERANCE, TRIG_TOLERANCE};
use orbit_camera::{
    calculate_relative_position, direction, is_normalized, OrbitCamera, Point3, SinCos,
};

/// The sine and the cosine of a fixed-point angle, to the nearest step.
fn sin_cos(angle: i64) -> SinCos {
    let radians = angle as f64 / UNIT as f64;
    let sin = (radians.sin() * UNIT as f64).round() as i64;
    let cos = (radians.cos() * UNIT as f64).round() as i64;
    SinCos::new(sin, cos).expect("a sine and a cosine lie on the unit circle")
}

#[test]
fn sin_cos_accepts_the_unit_circle() {
    let zero = SinCos::new(0, UNIT).unwrap();
    assert_eq!((zero.sin(), zero.cos()), (0, UNIT));
    let eighth = SinCos::new(707_107, 707_107).unwrap();
    assert_eq!((eighth.sin(), eighth.cos()), (707_107, 707_107));
    let down = SinCos::new(-UNIT, 0).unwrap();
    assert_eq!((down.sin(), down.cos()), (-UNIT, 0));
    assert_eq!((SinCos::zero().sin(), SinCos::zero().cos()), (0, UNIT));
}

#[test]
fn sin_cos_rejects_what_is_off_the_unit_circle() {
    assert!(SinCos::new(0, 0).is_none());
    assert!(SinCos::new(UNIT, UNIT).is_none());
    assert!(SinCos::new(0, UNIT + 2).is_none());
    assert!(SinCos::new(0, UNIT - 2).is_none());
    assert!(SinCos::new(i64::MAX, 0).is_none());
    assert!(SinCos::new(0, i64::MIN).is_none());
    assert!(SinCos::new(i64::MIN, i64::MIN).is_none());
}

#[test]
fn sin_cos_tolerance_is_exact() {
    assert_eq!(TRIG_TOLERANCE, 2 * UNIT);
    // (UNIT + 1)² = UNIT² + 2·UNIT + 1 is one too many, UNIT² + 2·UNIT is not
    assert!(SinCos::new(0, UNIT + 1).is_none());
    assert!(SinCos::new(UNIT + 1, 0).is_none());
    assert!(SinCos::new(1_000, UNIT).is_some());
    assert!(SinCos::new(1_414, UNIT).is_some());
    assert!(SinCos::new(1_415, UNIT).is_none());
    // 999_999² = UNIT² - 2·UNIT + 1
    assert!(SinCos::new(0, UNIT - 1).is_some());
    assert!(SinCos::new(-1, UNIT - 1).is_some());
}

#[test]
fn sin_cos_of_every_angle_of_the_range_is_accepted() {
    let mut angle = MIN_YAW;
    while angle <= MAX_YAW {
        sin_cos(angle);
        angle += 7_919;
    }
}

#[test]
fn direction_follows_the_formula() {
    // pitch 0, yaw 0: along +Z
    assert_eq!(direction(&sin_cos(0), &sin_cos(0)), Point3::new(0, 0, UNIT));
    // pitch 0, yaw a quarter turn: along +X
    let quarter = SinCos::new(UNIT, 0).unwrap();
    assert_eq!(direction(&SinCos::zero(), &quarter), Point3::new(UNIT, 0, 0));
    // x is sin(yaw)·cos(pitch), y is sin(pitch), z is cos(yaw)·cos(pitch)
    let pitch = SinCos::new(600_000, 800_000).unwrap();
    let yaw = SinCos::new(-280_000, 960_000).unwrap();
    assert_eq!(direction(&pitch, &yaw), Point3::new(-224_000, 600_000, 768_000));
    // an eighth of a turn each: rounded toward zero
    let eighth = SinCos::new(707_107, 707_107).unwrap();
    assert_eq!(direction(&eighth, &eighth), Point3::new(500_000, 707_107, 500_000));
    let back = SinCos::new(-707_107, -707_107).unwrap();
    assert_eq!(direction(&eighth, &back), Point3::new(-500_000, 707_107, -500_000));
}

#[test]
fn direction_has_length_one_for_every_pitch_and_yaw() {
    let mut pitch = MIN_PITCH;
    while pitch <= MAX_PITCH {
        let mut yaw = MIN_YAW;
        while yaw <= MAX_YAW {
            let d = direction(&sin_cos(pitch), &sin_cos(yaw));
            assert!(is_normalized(&d));
            let norm = ((d.x as f64).powi(2) + (d.y as f64).powi(2) + (d.z as f64).powi(2)).sqrt()
                / UNIT as f64;
            assert!((norm - 1.0).abs() <= 1e-5);
            yaw += 170_003;
        }
        pitch += 130_003;
    }
    for (pitch, yaw) in [(MIN_PITCH, MIN_YAW), (MIN_PITCH, MAX_YAW), (MAX_PITCH, MIN_YAW),
        (MAX_PITCH, MAX_YAW)]
    {
        assert!(is_normalized(&direction(&sin_cos(pitch), &sin_cos(yaw))));
    }
}

#[test]
fn is_normalized_tells_unit_vectors_from_others() {
    assert_eq!(NORM_TOLERANCE, 10 * UNIT);
    assert!(is_normalized(&Point3::new(0, 0, UNIT)));
    assert!(is_normalized(&Point3::new(-UNIT, 0, 0)));
    assert!(is_normalized(&Point3::new(600_000, 0, -800_000)));
    assert!(is_normalized(&Point3::new(0, UNIT + 4, 0)));
    assert!(!is_normalized(&Point3::new(0, UNIT + 5, 0)));
    assert!(is_normalized(&Point3::new(0, UNIT - 5, 0)));
    assert!(!is_normalized(&Point3::new(0, UNIT - 6, 0)));
    assert!(!is_normalized(&Point3::new(0, 0, 0)));
    assert!(!is_normalized(&Point3::new(UNIT, UNIT, 0)));
    assert!(!is_normalized(&Point3::new(i64::MAX, 0, 0)));
    assert!(!is_normalized(&Point3::new(0, i64::MIN, 0)));
    assert!(!is_normalized(&Point3::new(2 * UNIT + 1, 0, 0)));
}

#[test]
fn relative_position_scales_the_direction() {
    let eighth = SinCos::new(707_107, 707_107).unwrap();
    assert_eq!(
        calculate_relative_position(&eighth, &eighth, 50 * UNIT),
        Point3::new(25_000_000, 35_355_350, 25_000_000)
    );
    assert_eq!(
        calculate_relative_position(&SinCos::zero(), &SinCos::zero(), 10 * UNIT),
        Point3::new(0, 0, 10 * UNIT)
    );
    assert_eq!(
        calculate_relative_position(&eighth, &eighth, 0),
        Point3::new(0, 0, 0)
    );
    // rounded toward zero on both sides
    let pitch = SinCos::new(-600_000, 800_000).unwrap();
    assert_eq!(
        calculate_relative_position(&pitch, &SinCos::zero(), 7),
        Point3::new(0, -4, 5)
    );
}

#[test]
fn relative_position_stops_at_the_end_of_the_range() {
    let up = SinCos::new(UNIT, 0).unwrap();
    assert_eq!(
        calculate_relative_position(&up, &SinCos::zero(), i64::MAX),
        Point3::new(0, i64::MAX, 0)
    );
    let over = SinCos::new(UNIT, 1_000).unwrap();
    assert_eq!(calculate_relative_position(&over, &SinCos::zero(), i64::MAX).y, i64::MAX);
    assert_eq!(calculate_relative_position(&over, &SinCos::zero(), i64::MIN).y, i64::MIN);
}

#[test]
fn position_at_pitch_zero_and_yaw_zero() {
    let mut camera = OrbitCamera::new(None, 10 * UNIT, 0, 0);
    camera.set_focus(Point3::new(0, 0, 0));
    let position = camera.position(&sin_cos(camera.pitch()), &sin_cos(camera.yaw()));
    assert_eq!(position, Point3::new(0, 0, 10 * UNIT));
}

#[test]
fn position_is_the_focus_moved_by_the_relative_position() {
    let mut camera = OrbitCamera::new(None, 50 * UNIT, 785_398, 785_398);
    camera.set_focus(Point3::new(UNIT, -2 * UNIT, 3 * UNIT));
    let position = camera.position(&sin_cos(camera.pitch()), &sin_cos(camera.yaw()));
    assert_eq!(position, Point3::new(26_000_000, 33_355_350, 28_000_000));
    // a quarter turn of yaw, level: out along +X
    camera.set_pitch(0).set_yaw(1_570_796).set_distance(5 * UNIT);
    let position = camera.position(&sin_cos(camera.pitch()), &sin_cos(camera.yaw()));
    assert_eq!(position, Point3::new(6 * UNIT, -2 * UNIT, 3 * UNIT));
    // looking from below
    camera.set_pitch(-UNIT).set_yaw(0).set_distance(10 * UNIT);
    let position = camera.position(&sin_cos(camera.pitch()), &sin_cos(camera.yaw()));
    assert_eq!(position, Point3::new(UNIT, -2 * UNIT - 8_414_710, 3 * UNIT + 5_403_020));
}

#[test]
fn position_keeps_the_distance_from_the_focus() {
    let mut camera = OrbitCamera::new(None, 5 * UNIT, 0, 0);
    camera.set_focus(Point3::new(-3 * UNIT, 4 * UNIT, 12 * UNIT));
    for distance in [5 * UNIT, 17 * UNIT, MAX_DISTANCE] {
        let mut pitch = MIN_PITCH;
        while pitch <= MAX_PITCH {
            let mut yaw = -PI;
            while yaw <= PI {
                camera.set_distance(distance).set_pitch(pitch).set_yaw(yaw);
                let p = camera.position(&sin_cos(camera.pitch()), &sin_cos(camera.yaw()));
                let f = camera.focus();
                let length = (((p.x - f.x) as f64).powi(2) + ((p.y - f.y) as f64).powi(2)
                    + ((p.z - f.z) as f64).powi(2))
                    .sqrt();
                assert!((length / distance as f64 - 1.0).abs() <= 1e-5);
                yaw += 900_001;
            }
            pitch += 500_009;
        }
    }
}

#[test]
fn position_stops_at_the_end_of_the_range() {
    let mut camera = OrbitCamera::new(None, 10 * UNIT, 0, 0);
    camera.set_focus(Point3::new(i64::MAX, i64::MIN, i64::MAX - 3));
    let position = camera.position(&SinCos::zero(), &SinCos::zero());
    assert_eq!(position, Point3::new(i64::MAX, i64::MIN, i64::MAX));
    let behind = SinCos::new(0, -UNIT).unwrap();
    camera.set_focus(Point3::new(0, 0, i64::MIN + 3));
    assert_eq!(camera.position(&SinCos::zero(), &behind), Point3::new(0, 0, i64::MIN));
}

#[test]
fn position_does_not_change_the_camera() {
    let mut camera = OrbitCamera::new(None, 10 * UNIT, 300_000, -400_000);
    camera.set_focus(Point3::new(1, 2, 3));
    let before = (camera.focus(), camera.distance(), camera.pitch(), camera.yaw());
    let first = camera.position(&sin_cos(300_000), &sin_cos(-400_000));
    let second = camera.position(&sin_cos(300_000), &sin_cos(-400_000));
    assert_eq!(first, second);
    assert_eq!(before, (camera.focus(), camera.distance(), camera.pitch(), camera.yaw()));
}

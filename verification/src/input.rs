//! Turning what the mouse did during a frame into changes of the cameras:
//! the wheel zooms, a drag with the button held orbits.

use vstd::prelude::*;
use crate::fixed::{lemma_quotient_bounds, quotient, saturated, UNIT};
use crate::interval::clamp_wide;
use crate::orbit::{clamped_distance, clamped_pitch, wrapped_yaw, OrbitCamera, OrbitState, PI};

verus! {

/// One turn of the mouse wheel: `y` lines, as a fixed-point number.
#[derive(Clone, Copy, Debug, PartialEq, Eq, Structural)]
pub struct MouseWheel {
    pub y: i64,
}

/// One movement of the mouse: so many pixels to the right and downward, as
/// fixed-point numbers.
#[derive(Clone, Copy, Debug, PartialEq, Eq, Structural)]
pub struct MouseMotion {
    pub delta_x: i64,
    pub delta_y: i64,
}

/// What a [`DragScale`] stands for.
pub struct DragScaleValue {
    pub yaw_pixels: int,
    pub pitch_pixels: int,
}

/// How far the mouse travels for a given rotation: `yaw_pixels` whole pixels
/// for a full turn of yaw, `pitch_pixels` whole pixels for half a turn of
/// pitch. Neither is zero.
#[derive(Clone, Copy, Debug)]
pub struct DragScale {
    yaw_pixels: u32,
    pitch_pixels: u32,
}

impl View for DragScale {
    type V = DragScaleValue;

    closed spec fn view(&self) -> DragScaleValue {
        DragScaleValue {
            yaw_pixels: self.yaw_pixels as int,
            pitch_pixels: self.pitch_pixels as int,
        }
    }
}

impl DragScale {
    /// Holds of every value of the type.
    #[verifier::type_invariant]
    pub open spec fn nonzero(self) -> bool {
        self@.yaw_pixels > 0 && self@.pitch_pixels > 0
    }

    /// A scale of `yaw_pixels` for a full turn of yaw and `pitch_pixels` for
    /// half a turn of pitch, or `None` if either is zero.
    pub fn new(yaw_pixels: u32, pitch_pixels: u32) -> (r: Option<DragScale>)
        ensures
            r is Some <==> yaw_pixels > 0 && pitch_pixels > 0,
            r matches Some(scale) ==> scale@ == (DragScaleValue {
                yaw_pixels: yaw_pixels as int,
                pitch_pixels: pitch_pixels as int,
            }),
    {
        if yaw_pixels > 0 && pitch_pixels > 0 {
            Some(DragScale { yaw_pixels, pitch_pixels })
        } else {
            None
        }
    }

    /// The scale of a window 1280 pixels wide and 720 pixels high: dragging
    /// across its width is a full turn of yaw, across its height half a turn
    /// of pitch.
    pub fn window_1280_by_720() -> (r: DragScale)
        ensures
            r@ == (DragScaleValue { yaw_pixels: 1280, pitch_pixels: 720 }),
    {
        DragScale { yaw_pixels: 1280, pitch_pixels: 720 }
    }
}

/// The sum of the wheel's turns.
pub open spec fn total_scroll(events: Seq<MouseWheel>) -> int
    decreases events.len(),
{
    if events.len() == 0 {
        0
    } else {
        total_scroll(events.drop_last()) + events.last().y
    }
}

/// The sum of the movements to the right.
pub open spec fn total_x(events: Seq<MouseMotion>) -> int
    decreases events.len(),
{
    if events.len() == 0 {
        0
    } else {
        total_x(events.drop_last()) + events.last().delta_x
    }
}

/// The sum of the movements downward.
pub open spec fn total_y(events: Seq<MouseMotion>) -> int
    decreases events.len(),
{
    if events.len() == 0 {
        0
    } else {
        total_y(events.drop_last()) + events.last().delta_y
    }
}

/// The change of yaw for a drag of `moved` to the right: a full turn for each
/// `yaw_pixels`, against the direction of the drag. `moved` is held to the
/// range of an `i64` first, and the result is rounded toward zero.
pub open spec fn yaw_delta(moved: int, scale: DragScaleValue) -> int {
    quotient(-saturated(moved) * (2 * PI), scale.yaw_pixels * UNIT)
}

/// The change of pitch for a drag of `moved` downward: half a turn for each
/// `pitch_pixels`. `moved` is held to the range of an `i64` first, and the
/// result is rounded toward zero.
pub open spec fn pitch_delta(moved: int, scale: DragScaleValue) -> int {
    quotient(saturated(moved) * PI, scale.pitch_pixels * UNIT)
}

/// The state after the wheel has turned by `scroll`: the camera has come
/// nearer by that much.
pub open spec fn zoomed(state: OrbitState, scroll: int) -> OrbitState {
    OrbitState { distance: clamped_distance(state.distance - scroll), ..state }
}

/// The state after a turn by `yaw` and a tilt by `pitch`.
pub open spec fn rotated(state: OrbitState, yaw: int, pitch: int) -> OrbitState {
    OrbitState {
        yaw: wrapped_yaw(state.yaw + yaw),
        pitch: clamped_pitch(state.pitch + pitch),
        ..state
    }
}

/// A sum so large that it leaves the range of an `i64` moves the distance to
/// the same end as the sum held to that range.
pub proof fn lemma_zoom_saturates(distance: int, scroll: int)
    requires
        0 <= distance <= i64::MAX,
    ensures
        clamped_distance(distance - saturated(scroll)) == clamped_distance(distance - scroll),
{
}

/// The sum of a sequence of at most `2^64` numbers of 64 bits fits 128 bits.
proof fn lemma_sum_fits(count: int, sum: int)
    requires
        0 <= count <= usize::MAX,
        -count * 0x8000_0000_0000_0000 <= sum <= count * 0x8000_0000_0000_0000,
    ensures
        -0x7fff_ffff_ffff_ffff_8000_0000_0000_0000 <= sum
            <= 0x7fff_ffff_ffff_ffff_8000_0000_0000_0000,
{
    assert(usize::MAX <= 0xffff_ffff_ffff_ffff);
}

/// The sum of the wheel's turns, held to the range of an `i64`.
fn sum_scroll(events: &Vec<MouseWheel>) -> (r: i64)
    ensures
        r == saturated(total_scroll(events@)),
{
    let mut sum: i128 = 0;
    let mut i: usize = 0;
    while i < events.len()
        invariant
            i <= events.len(),
            sum == total_scroll(events@.take(i as int)),
            -i * 0x8000_0000_0000_0000 <= sum <= i * 0x8000_0000_0000_0000,
        decreases events.len() - i,
    {
        proof {
            lemma_sum_fits(i as int, sum as int);
            assert(events@.take(i + 1).drop_last() =~= events@.take(i as int));
        }
        sum = sum + events[i].y as i128;
        i += 1;
    }
    proof {
        assert(events@.take(i as int) =~= events@);
    }
    clamp_wide(sum, i64::MIN, i64::MAX)
}

/// The sums of the movements to the right and downward, each held to the
/// range of an `i64`.
fn sum_motion(events: &Vec<MouseMotion>) -> (r: (i64, i64))
    ensures
        r.0 == saturated(total_x(events@)),
        r.1 == saturated(total_y(events@)),
{
    let mut sum_x: i128 = 0;
    let mut sum_y: i128 = 0;
    let mut i: usize = 0;
    while i < events.len()
        invariant
            i <= events.len(),
            sum_x == total_x(events@.take(i as int)),
            sum_y == total_y(events@.take(i as int)),
            -i * 0x8000_0000_0000_0000 <= sum_x <= i * 0x8000_0000_0000_0000,
            -i * 0x8000_0000_0000_0000 <= sum_y <= i * 0x8000_0000_0000_0000,
        decreases events.len() - i,
    {
        proof {
            lemma_sum_fits(i as int, sum_x as int);
            lemma_sum_fits(i as int, sum_y as int);
            assert(events@.take(i + 1).drop_last() =~= events@.take(i as int));
        }
        sum_x = sum_x + events[i].delta_x as i128;
        sum_y = sum_y + events[i].delta_y as i128;
        i += 1;
    }
    proof {
        assert(events@.take(i as int) =~= events@);
    }
    (clamp_wide(sum_x, i64::MIN, i64::MAX), clamp_wide(sum_y, i64::MIN, i64::MAX))
}

/// `moved * angle / (pixels * UNIT)`, rounded toward zero.
fn drag_angle(moved: i64, angle: i64, pixels: u32) -> (r: i128)
    requires
        0 <= angle <= 2 * PI,
        pixels > 0,
    ensures
        r == quotient(moved * angle, pixels * UNIT),
        -0x8000_0000_0000_0000 * (2 * PI) <= r <= 0x8000_0000_0000_0000 * (2 * PI),
{
    assert(-0x8000_0000_0000_0000 * (2 * PI) <= moved * angle <= 0x8000_0000_0000_0000 * (2
        * PI)) by (nonlinear_arith)
        requires
            -0x8000_0000_0000_0000 <= moved <= 0x8000_0000_0000_0000,
            0 <= angle <= 2 * PI,
    ;
    let numerator: i128 = moved as i128 * angle as i128;
    let denominator: i128 = pixels as i128 * UNIT as i128;
    proof {
        lemma_quotient_bounds(moved * angle, pixels * UNIT);
        let q = quotient(moved * angle, pixels * UNIT);
        let d = pixels * UNIT;
        assert(moved * angle >= 0 ==> 0 <= q <= moved * angle) by (nonlinear_arith)
            requires
                d >= 1,
                moved * angle >= 0 ==> moved * angle - d < q * d <= moved * angle,
        ;
        assert(moved * angle <= 0 ==> moved * angle <= q <= 0) by (nonlinear_arith)
            requires
                d >= 1,
                moved * angle <= 0 ==> moved * angle <= q * d < moved * angle + d,
        ;
    }
    numerator / denominator
}

/// Zooms every camera by what the wheel did during the frame: each comes
/// nearer to its focus by the sum of the turns, within the range of the
/// distance.
pub fn zoom_camera(cameras: &mut Vec<OrbitCamera>, events: &Vec<MouseWheel>)
    ensures
        final(cameras).len() == old(cameras).len(),
        forall|i: int|
            0 <= i < old(cameras).len() ==> (#[trigger] final(cameras)[i])@ == zoomed(
                old(cameras)[i]@,
                total_scroll(events@),
            ),
{
    let zoom = sum_scroll(events);
    let mut i: usize = 0;
    while i < cameras.len()
        invariant
            i <= cameras.len(),
            cameras.len() == old(cameras).len(),
            zoom == saturated(total_scroll(events@)),
            forall|j: int|
                0 <= j < i ==> (#[trigger] cameras[j])@ == zoomed(
                    old(cameras)[j]@,
                    total_scroll(events@),
                ),
            forall|j: int| i <= j < cameras.len() ==> cameras[j] == old(cameras)[j],
        decreases cameras.len() - i,
    {
        let distance = cameras[i].distance();
        proof {
            lemma_zoom_saturates(distance as int, total_scroll(events@));
        }
        cameras[i].add_distance_wide(-(zoom as i128));
        i += 1;
    }
}

/// Orbits every camera by what the mouse did during the frame, if the button
/// is held: the movement to the right turns the camera the other way round,
/// the movement downward tilts it. With the button up nothing changes.
pub fn rotate_camera(
    cameras: &mut Vec<OrbitCamera>,
    pressed: bool,
    events: &Vec<MouseMotion>,
    scale: &DragScale,
)
    ensures
        final(cameras).len() == old(cameras).len(),
        !pressed ==> final(cameras)@ == old(cameras)@,
        pressed ==> forall|i: int|
            0 <= i < old(cameras).len() ==> (#[trigger] final(cameras)[i])@ == rotated(
                old(cameras)[i]@,
                yaw_delta(total_x(events@), scale@),
                pitch_delta(total_y(events@), scale@),
            ),
{
    if !pressed {
        return ;
    }
    proof {
        use_type_invariant(scale);
    }
    let (moved_x, moved_y) = sum_motion(events);
    let yaw = -drag_angle(moved_x, 2 * PI, scale.yaw_pixels);
    let pitch = drag_angle(moved_y, PI, scale.pitch_pixels);
    proof {
        assert(-(moved_x * (2 * PI)) == -moved_x * (2 * PI)) by (nonlinear_arith);
        lemma_quotient_negated(moved_x * (2 * PI), scale@.yaw_pixels * UNIT);
    }
    let mut i: usize = 0;
    while i < cameras.len()
        invariant
            i <= cameras.len(),
            cameras.len() == old(cameras).len(),
            yaw == yaw_delta(total_x(events@), scale@),
            pitch == pitch_delta(total_y(events@), scale@),
            -0x8000_0000_0000_0000 * (2 * PI) <= yaw <= 0x8000_0000_0000_0000 * (2 * PI),
            -0x8000_0000_0000_0000 * (2 * PI) <= pitch <= 0x8000_0000_0000_0000 * (2 * PI),
            forall|j: int|
                0 <= j < i ==> (#[trigger] cameras[j])@ == rotated(
                    old(cameras)[j]@,
                    yaw as int,
                    pitch as int,
                ),
            forall|j: int| i <= j < cameras.len() ==> cameras[j] == old(cameras)[j],
        decreases cameras.len() - i,
    {
        cameras[i].add_yaw_wide(yaw).add_pitch_wide(pitch);
        i += 1;
    }
}

/// Rounding toward zero treats a number and its negative alike.
pub proof fn lemma_quotient_negated(a: int, b: int)
    requires
        b > 0,
    ensures
        quotient(-a, b) == -quotient(a, b),
{
    if a == 0 {
        lemma_quotient_bounds(0, b);
    }
}

} // verus!

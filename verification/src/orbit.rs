//! The state of an orbit camera: what it follows, the point it looks at, and
//! where on the sphere around that point it sits.
//!
//! Every write of the distance or the pitch is clamped and every write of the
//! yaw is wrapped, at construction as on every later change, so that a camera
//! never holds a value outside its range.

use vstd::prelude::*;
use crate::fixed::{lemma_quotient_bounds, UNIT};
use crate::interval::{
    clamp_wide, clamped, lemma_wrapped_range, wrap_wide, wrapped, WIDE_LIMIT,
};
use crate::trig::{direction, direction_of, lemma_direction_bounds, SinCos, SinCosValue};
use crate::vector::{Point3, Vector};

verus! {

/// The smallest distance that counts as positive: one step.
pub const EPSILON: i64 = 1;

/// The nearest that a camera comes to its focus.
pub const MIN_DISTANCE: i64 = 5_000_000;

/// The farthest that a camera moves from its focus.
pub const MAX_DISTANCE: i64 = 100_000_000;

/// Half a turn, in radians.
pub const PI: i64 = 3_141_593;

/// The steepest pitch upward: a tenth of a degree short of the pole, in radians.
pub const MAX_PITCH: i64 = 1_569_051;

/// The steepest pitch downward.
pub const MIN_PITCH: i64 = -MAX_PITCH;

/// The largest yaw: half a turn to one side.
pub const MAX_YAW: i64 = PI;

/// The smallest yaw: half a turn to the other side.
pub const MIN_YAW: i64 = -MAX_YAW;

/// The handle of an object that a camera can follow. It names the object; it
/// does not hold its position.
#[derive(Clone, Copy, Debug, PartialEq, Eq, Structural, Hash)]
pub struct TargetId(pub u64);

/// The mark of an object that cameras may follow.
#[derive(Clone, Copy, Debug, PartialEq, Eq, Structural)]
pub struct OrbitCameraTarget;

/// The distance that is stored when `value` is written: raised to at least
/// [`EPSILON`], then clamped to `[MIN_DISTANCE, MAX_DISTANCE]`.
pub open spec fn clamped_distance(value: int) -> int {
    let positive = if value < EPSILON {
        EPSILON as int
    } else {
        value
    };
    clamped(positive, MIN_DISTANCE as int, MAX_DISTANCE as int)
}

/// The pitch that is stored when `value` is written: clamped to `[MIN_PITCH, MAX_PITCH]`.
pub open spec fn clamped_pitch(value: int) -> int {
    clamped(value, MIN_PITCH as int, MAX_PITCH as int)
}

/// The yaw that is stored when `value` is written: wrapped into `[MIN_YAW, MAX_YAW]`.
pub open spec fn wrapped_yaw(value: int) -> int {
    wrapped(value, MIN_YAW as int, MAX_YAW as int)
}

/// The offset of the camera from its focus: the unit direction of the two
/// angles, stretched to `distance`.
pub open spec fn relative_position(pitch: SinCosValue, yaw: SinCosValue, distance: int) -> Vector {
    direction_of(pitch, yaw).scaled(distance)
}

/// What an [`OrbitCamera`] stands for.
pub struct OrbitState {
    /// The object that the camera follows, if any.
    pub target: Option<TargetId>,
    /// The point that the camera looks at.
    pub focus: Point3,
    /// The radius of the sphere on which the camera sits.
    pub distance: int,
    /// The angle above the horizontal plane, in radians.
    pub pitch: int,
    /// The angle around the vertical axis, from the positive Z axis, in radians.
    pub yaw: int,
}

impl OrbitState {
    /// Whether distance, pitch and yaw lie in their ranges.
    pub open spec fn valid(self) -> bool {
        &&& EPSILON <= self.distance
        &&& MIN_DISTANCE <= self.distance <= MAX_DISTANCE
        &&& MIN_PITCH <= self.pitch <= MAX_PITCH
        &&& MIN_YAW <= self.yaw <= MAX_YAW
    }

    /// Where the camera sits, for the given sines and cosines of its pitch and
    /// yaw: the focus moved by the relative position. A coordinate that would
    /// leave the range of an `i64` stops at its end.
    pub open spec fn position(self, pitch: SinCosValue, yaw: SinCosValue) -> Vector {
        self.focus@.plus(relative_position(pitch, yaw, self.distance)).saturated()
    }
}

/// An orbit camera's state.
#[derive(Clone, Copy, Debug)]
pub struct OrbitCamera {
    target: Option<TargetId>,
    focus: Point3,
    distance: i64,
    pitch: i64,
    yaw: i64,
}

impl View for OrbitCamera {
    type V = OrbitState;

    closed spec fn view(&self) -> OrbitState {
        OrbitState {
            target: self.target,
            focus: self.focus,
            distance: self.distance as int,
            pitch: self.pitch as int,
            yaw: self.yaw as int,
        }
    }
}

/// Clamps a wide number as a distance.
fn clamp_distance(value: i128) -> (r: i64)
    ensures
        r == clamped_distance(value as int),
{
    let raised: i128 = if value < EPSILON as i128 {
        EPSILON as i128
    } else {
        value
    };
    clamp_wide(raised, MIN_DISTANCE, MAX_DISTANCE)
}

impl OrbitCamera {
    /// Holds of every value of the type.
    #[verifier::type_invariant]
    pub open spec fn in_range(self) -> bool {
        self@.valid()
    }

    /// A camera that follows `target`, looking at the origin until it has
    /// found its target. The distance and the pitch are clamped and the yaw is
    /// wrapped, as on every later write.
    pub fn new(target: Option<TargetId>, distance: i64, pitch: i64, yaw: i64) -> (r: OrbitCamera)
        ensures
            r@ == (OrbitState {
                target,
                focus: Point3 { x: 0, y: 0, z: 0 },
                distance: clamped_distance(distance as int),
                pitch: clamped_pitch(pitch as int),
                yaw: wrapped_yaw(yaw as int),
            }),
            r@.valid(),
    {
        proof {
            lemma_wrapped_range(yaw as int, MIN_YAW as int, MAX_YAW as int);
        }
        OrbitCamera {
            target,
            focus: Point3::origin(),
            distance: clamp_distance(distance as i128),
            pitch: clamp_wide(pitch as i128, MIN_PITCH, MAX_PITCH),
            yaw: wrap_wide(yaw as i128, MIN_YAW, MAX_YAW),
        }
    }

    /// The object that the camera follows, if any.
    pub fn target(&self) -> (r: Option<TargetId>)
        ensures
            r == self@.target,
    {
        self.target
    }

    /// Makes the camera follow `target`, or nothing.
    pub fn set_target(&mut self, target: Option<TargetId>) -> (ret: &mut Self)
        ensures
            ret@ == (OrbitState { target, ..old(self)@ }),
            ret@.valid(),
            *final(self) == *final(ret),
    {
        proof {
            use_type_invariant(&*self);
        }
        self.target = target;
        self
    }

    /// The point that the camera looks at.
    pub fn focus(&self) -> (r: Point3)
        ensures
            r == self@.focus,
    {
        self.focus
    }

    /// Makes the camera look at `focus`, whatever the point.
    pub fn set_focus(&mut self, focus: Point3) -> (ret: &mut Self)
        ensures
            ret@ == (OrbitState { focus, ..old(self)@ }),
            ret@.valid(),
            *final(self) == *final(ret),
    {
        proof {
            use_type_invariant(&*self);
        }
        self.focus = focus;
        self
    }

    /// The distance from the focus.
    pub fn distance(&self) -> (r: i64)
        ensures
            r == self@.distance,
            self@.valid(),
    {
        proof {
            use_type_invariant(self);
        }
        self.distance
    }

    /// Writes the distance, clamped.
    pub fn set_distance(&mut self, distance: i64) -> (ret: &mut Self)
        ensures
            ret@ == (OrbitState { distance: clamped_distance(distance as int), ..old(self)@ }),
            ret@.valid(),
            *final(self) == *final(ret),
    {
        proof {
            use_type_invariant(&*self);
        }
        self.distance = clamp_distance(distance as i128);
        self
    }

    /// Moves the camera away from the focus by `delta`, or toward it if
    /// `delta` is negative; the new distance is clamped.
    pub fn add_distance(&mut self, delta: i64) -> (ret: &mut Self)
        ensures
            ret@ == (OrbitState {
                distance: clamped_distance(old(self)@.distance + delta),
                ..old(self)@
            }),
            ret@.valid(),
            *final(self) == *final(ret),
    {
        self.add_distance_wide(delta as i128)
    }

    /// [`Self::add_distance`] for a wide `delta`.
    pub(crate) fn add_distance_wide(&mut self, delta: i128) -> (ret: &mut Self)
        requires
            -WIDE_LIMIT <= delta <= WIDE_LIMIT,
        ensures
            ret@ == (OrbitState {
                distance: clamped_distance(old(self)@.distance + delta),
                ..old(self)@
            }),
            ret@.valid(),
            *final(self) == *final(ret),
    {
        proof {
            use_type_invariant(&*self);
        }
        self.distance = clamp_distance(self.distance as i128 + delta);
        self
    }

    /// The pitch.
    pub fn pitch(&self) -> (r: i64)
        ensures
            r == self@.pitch,
            self@.valid(),
    {
        proof {
            use_type_invariant(self);
        }
        self.pitch
    }

    /// Writes the pitch, clamped.
    pub fn set_pitch(&mut self, pitch: i64) -> (ret: &mut Self)
        ensures
            ret@ == (OrbitState { pitch: clamped_pitch(pitch as int), ..old(self)@ }),
            ret@.valid(),
            *final(self) == *final(ret),
    {
        proof {
            use_type_invariant(&*self);
        }
        self.pitch = clamp_wide(pitch as i128, MIN_PITCH, MAX_PITCH);
        self
    }

    /// Tilts the camera by `delta`; the new pitch is clamped.
    pub fn add_pitch(&mut self, delta: i64) -> (ret: &mut Self)
        ensures
            ret@ == (OrbitState { pitch: clamped_pitch(old(self)@.pitch + delta), ..old(self)@ }),
            ret@.valid(),
            *final(self) == *final(ret),
    {
        self.add_pitch_wide(delta as i128)
    }

    /// [`Self::add_pitch`] for a wide `delta`.
    pub(crate) fn add_pitch_wide(&mut self, delta: i128) -> (ret: &mut Self)
        requires
            -WIDE_LIMIT <= delta <= WIDE_LIMIT,
        ensures
            ret@ == (OrbitState { pitch: clamped_pitch(old(self)@.pitch + delta), ..old(self)@ }),
            ret@.valid(),
            *final(self) == *final(ret),
    {
        proof {
            use_type_invariant(&*self);
        }
        self.pitch = clamp_wide(self.pitch as i128 + delta, MIN_PITCH, MAX_PITCH);
        self
    }

    /// The yaw.
    pub fn yaw(&self) -> (r: i64)
        ensures
            r == self@.yaw,
            self@.valid(),
    {
        proof {
            use_type_invariant(self);
        }
        self.yaw
    }

    /// Writes the yaw, wrapped.
    pub fn set_yaw(&mut self, yaw: i64) -> (ret: &mut Self)
        ensures
            ret@ == (OrbitState { yaw: wrapped_yaw(yaw as int), ..old(self)@ }),
            ret@.valid(),
            *final(self) == *final(ret),
    {
        proof {
            use_type_invariant(&*self);
            lemma_wrapped_range(yaw as int, MIN_YAW as int, MAX_YAW as int);
        }
        self.yaw = wrap_wide(yaw as i128, MIN_YAW, MAX_YAW);
        self
    }

    /// Turns the camera around the vertical axis by `delta`; the new yaw is wrapped.
    pub fn add_yaw(&mut self, delta: i64) -> (ret: &mut Self)
        ensures
            ret@ == (OrbitState { yaw: wrapped_yaw(old(self)@.yaw + delta), ..old(self)@ }),
            ret@.valid(),
            *final(self) == *final(ret),
    {
        self.add_yaw_wide(delta as i128)
    }

    /// [`Self::add_yaw`] for a wide `delta`.
    pub(crate) fn add_yaw_wide(&mut self, delta: i128) -> (ret: &mut Self)
        requires
            -(WIDE_LIMIT / 2) <= delta <= WIDE_LIMIT / 2,
        ensures
            ret@ == (OrbitState { yaw: wrapped_yaw(old(self)@.yaw + delta), ..old(self)@ }),
            ret@.valid(),
            *final(self) == *final(ret),
    {
        proof {
            use_type_invariant(&*self);
            lemma_wrapped_range(self.yaw + delta, MIN_YAW as int, MAX_YAW as int);
        }
        self.yaw = wrap_wide(self.yaw as i128 + delta, MIN_YAW, MAX_YAW);
        self
    }

    /// Where the camera sits. The caller supplies the sines and cosines of
    /// [`Self::pitch`] and [`Self::yaw`].
    pub fn position(&self, pitch: &SinCos, yaw: &SinCos) -> (r: Point3)
        ensures
            r@ == self@.position(pitch@, yaw@),
    {
        proof {
            use_type_invariant(self);
            use_type_invariant(pitch);
            use_type_invariant(yaw);
            lemma_relative_position_bounds(pitch@, yaw@, self.distance as int);
        }
        let offset = calculate_relative_position(pitch, yaw, self.distance);
        self.focus.offset_by(&offset)
    }
}

/// The offset of a camera from its focus, for the sines and cosines of its
/// pitch and yaw and for its distance. A coordinate that would leave the range
/// of an `i64` stops at its end, which no distance of a camera brings about.
pub fn calculate_relative_position(pitch: &SinCos, yaw: &SinCos, distance: i64) -> (r: Point3)
    ensures
        r@ == relative_position(pitch@, yaw@, distance as int).saturated(),
{
    let point = direction(pitch, yaw);
    point.scaled_by(distance)
}

/// At a distance that a camera can have, no coordinate of the relative
/// position exceeds the distance by more than a thousandth of a unit.
pub proof fn lemma_relative_position_bounds(pitch: SinCosValue, yaw: SinCosValue, distance: int)
    requires
        pitch.is_unit(),
        yaw.is_unit(),
        0 <= distance <= MAX_DISTANCE,
    ensures
        relative_position(pitch, yaw, distance).fits(),
        relative_position(pitch, yaw, distance).saturated() == relative_position(
            pitch,
            yaw,
            distance,
        ),
        -(distance + 1000) <= relative_position(pitch, yaw, distance).x <= distance + 1000,
        -(distance + 1000) <= relative_position(pitch, yaw, distance).y <= distance + 1000,
        -(distance + 1000) <= relative_position(pitch, yaw, distance).z <= distance + 1000,
{
    let d = direction_of(pitch, yaw);
    lemma_direction_bounds(pitch, yaw);
    lemma_stretch_bounds(d.x, distance);
    lemma_stretch_bounds(d.y, distance);
    lemma_stretch_bounds(d.z, distance);
}

/// Stretching a coordinate of a unit direction to a camera's distance gives at
/// most that distance and a thousandth of a unit.
proof fn lemma_stretch_bounds(c: int, distance: int)
    requires
        -(UNIT + 3) <= c <= UNIT + 3,
        0 <= distance <= MAX_DISTANCE,
    ensures
        -(distance + 1000) <= crate::fixed::product(c, distance) <= distance + 1000,
{
    let u = UNIT as int;
    let q = crate::fixed::product(c, distance);
    lemma_quotient_bounds(c * distance, u);
    assert(-((u + 3) * distance) <= c * distance <= (u + 3) * distance) by (nonlinear_arith)
        requires
            -(u + 3) <= c <= u + 3,
            0 <= distance,
    ;
    assert((u + 3) * distance == u * distance + 3 * distance) by (nonlinear_arith);
    assert(-(distance + 1000) <= q <= distance + 1000) by (nonlinear_arith)
        requires
            u == 1_000_000,
            0 <= distance <= 100_000_000,
            -(u * distance + 3 * distance) - u < q * u < u * distance + 3 * distance + u,
    ;
}

/// Writing a distance that was read back changes nothing: a clamped value is
/// clamped to itself.
pub proof fn lemma_distance_write_idempotent(value: int)
    ensures
        clamped_distance(clamped_distance(value)) == clamped_distance(value),
{
}

/// Whatever is written as a distance, what is stored lies in
/// `[MIN_DISTANCE, MAX_DISTANCE]` and is positive.
pub proof fn lemma_distance_in_range(value: int)
    ensures
        MIN_DISTANCE <= clamped_distance(value) <= MAX_DISTANCE,
        EPSILON <= clamped_distance(value),
        MIN_DISTANCE <= value <= MAX_DISTANCE ==> clamped_distance(value) == value,
{
}

/// One write of the distance: `set_distance` or `add_distance` with its argument.
pub enum DistanceWrite {
    Absolute(int),
    Relative(int),
}

/// The distance after a series of writes, the first of them applied to `start`.
pub open spec fn distance_after(start: int, writes: Seq<DistanceWrite>) -> int
    decreases writes.len(),
{
    if writes.len() == 0 {
        start
    } else {
        match writes.last() {
            DistanceWrite::Absolute(value) => clamped_distance(value),
            DistanceWrite::Relative(delta) => clamped_distance(
                distance_after(start, writes.drop_last()) + delta,
            ),
        }
    }
}

/// After every write of a series, whatever the arguments, the distance lies in
/// `[MIN_DISTANCE, MAX_DISTANCE]`.
pub proof fn lemma_distance_stays_in_range(start: int, writes: Seq<DistanceWrite>)
    ensures
        forall|n: int|
            0 < n <= writes.len() ==> MIN_DISTANCE <= #[trigger] distance_after(
                start,
                writes.take(n),
            ) <= MAX_DISTANCE,
{
    assert forall|n: int| 0 < n <= writes.len() implies MIN_DISTANCE <= #[trigger] distance_after(
        start,
        writes.take(n),
    ) <= MAX_DISTANCE by {
        let prefix = writes.take(n);
        match prefix.last() {
            DistanceWrite::Absolute(value) => lemma_distance_in_range(value),
            DistanceWrite::Relative(delta) => lemma_distance_in_range(
                distance_after(start, prefix.drop_last()) + delta,
            ),
        }
    }
}

/// Whatever is written as a pitch, what is stored lies in `[MIN_PITCH, MAX_PITCH]`.
pub proof fn lemma_pitch_in_range(value: int)
    ensures
        MIN_PITCH <= clamped_pitch(value) <= MAX_PITCH,
        MIN_PITCH <= value <= MAX_PITCH ==> clamped_pitch(value) == value,
{
}

/// Whatever is written as a yaw, what is stored lies in `[MIN_YAW, MAX_YAW]`
/// and differs from what was written by whole turns; a yaw of the range is
/// stored as it is. The wrapping takes no more reflections than the turns by
/// which the value lies outside the range, rounded up.
pub proof fn lemma_yaw_wraps(value: int)
    ensures
        MIN_YAW <= wrapped_yaw(value) <= MAX_YAW,
        (wrapped_yaw(value) - value) % (2 * PI) == 0,
        MIN_YAW <= value <= MAX_YAW ==> wrapped_yaw(value) == value,
        (crate::interval::reflections(value, MIN_YAW as int, MAX_YAW as int) - 1) * (2 * PI)
            < crate::interval::overshoot(value, MIN_YAW as int, MAX_YAW as int),
{
    lemma_wrapped_range(value, MIN_YAW as int, MAX_YAW as int);
    crate::interval::lemma_wrapped_congruent(value, MIN_YAW as int, MAX_YAW as int);
    crate::interval::lemma_reflections_bounded(value, MIN_YAW as int, MAX_YAW as int);
}

/// A yaw that passes the end of the range by less than a turn comes back in at
/// the other end, as far inside as it was outside: it is wrapped, not clamped.
pub proof fn lemma_yaw_wraps_around(excess: int)
    requires
        0 < excess <= 2 * PI,
    ensures
        wrapped_yaw(MAX_YAW + excess) == MIN_YAW + excess,
        wrapped_yaw(MIN_YAW - excess) == MAX_YAW - excess,
{
    assert(wrapped_yaw(MIN_YAW + excess) == MIN_YAW + excess);
    assert(wrapped_yaw(MAX_YAW - excess) == MAX_YAW - excess);
}

/// With distance, pitch and yaw held fixed, the camera moves exactly as its
/// focus moves, as long as neither position leaves the range of the coordinates.
pub proof fn lemma_position_follows_focus(
    before: OrbitState,
    after: OrbitState,
    pitch: SinCosValue,
    yaw: SinCosValue,
)
    requires
        before.distance == after.distance,
        before.focus@.plus(relative_position(pitch, yaw, before.distance)).fits(),
        after.focus@.plus(relative_position(pitch, yaw, after.distance)).fits(),
    ensures
        after.position(pitch, yaw).x - before.position(pitch, yaw).x == after.focus.x
            - before.focus.x,
        after.position(pitch, yaw).y - before.position(pitch, yaw).y == after.focus.y
            - before.focus.y,
        after.position(pitch, yaw).z - before.position(pitch, yaw).z == after.focus.z
            - before.focus.z,
{
}

} // verus!

//! The work of one frame: each camera's focus follows its target, then each
//! camera's transform is derived from its state.
//!
//! The first step is complete for all cameras before the second reads a focus,
//! so that a transform never rests on the focus of the frame before.

use vstd::prelude::*;
use std::collections::HashMap;
use crate::orbit::{OrbitCamera, OrbitCameraTarget, OrbitState, TargetId};
use crate::trig::{SinCos, SinCosValue};
use crate::vector::Point3;
use crate::fixed::UNIT;

verus! {

broadcast use vstd::std_specs::hash::group_hash_axioms;

/// A map from raw handles, read as a map from [`TargetId`]s.
pub open spec fn by_target(positions: Map<u64, Point3>) -> Map<TargetId, Point3> {
    Map::new(|id: TargetId| positions.contains_key(id.0), |id: TargetId| positions[id.0])
}

/// The current positions of the objects that carry the [`OrbitCameraTarget`]
/// mark, by handle. A handle that is not in the registry does not resolve.
pub struct TargetRegistry {
    positions: HashMap<u64, Point3>,
}

impl View for TargetRegistry {
    type V = Map<TargetId, Point3>;

    closed spec fn view(&self) -> Map<TargetId, Point3> {
        by_target(self.positions@)
    }
}

impl TargetRegistry {
    /// A registry in which no handle resolves.
    pub fn new() -> (r: TargetRegistry)
        ensures
            r@ == Map::<TargetId, Point3>::empty(),
    {
        let r = TargetRegistry { positions: HashMap::new() };
        assert(r@ =~= Map::<TargetId, Point3>::empty());
        r
    }

    /// Records that the marked object `id` is now at `position`.
    pub fn insert(&mut self, id: TargetId, _marker: OrbitCameraTarget, position: Point3)
        ensures
            final(self)@ == old(self)@.insert(id, position),
    {
        self.positions.insert(id.0, position);
        assert(self@ =~= old(self)@.insert(id, position));
    }

    /// Forgets the object `id`: its handle no longer resolves.
    pub fn remove(&mut self, id: TargetId)
        ensures
            final(self)@ == old(self)@.remove(id),
    {
        self.positions.remove(&id.0);
        assert(self@ =~= old(self)@.remove(id));
    }

    /// The position of the object `id`, or `None` if the handle does not resolve.
    pub fn resolve(&self, id: TargetId) -> (r: Option<Point3>)
        ensures
            r == (if self@.contains_key(id) {
                Some(self@[id])
            } else {
                None
            }),
    {
        match self.positions.get(&id.0) {
            Some(position) => Some(*position),
            None => None,
        }
    }
}

/// The state after focus tracking: the focus is the target's position if the
/// camera has a target and its handle resolves; otherwise nothing changes.
pub open spec fn following(state: OrbitState, targets: Map<TargetId, Point3>) -> OrbitState {
    match state.target {
        Some(id) => if targets.contains_key(id) {
            OrbitState { focus: targets[id], ..state }
        } else {
            state
        },
        None => state,
    }
}

/// Where a camera sits and how it is turned: at `translation`, looking at
/// `looking_at`, with `up` pointing upward.
#[derive(Clone, Copy, Debug, PartialEq, Eq, Structural)]
pub struct CameraTransform {
    pub translation: Point3,
    pub looking_at: Point3,
    pub up: Point3,
}

/// The sines and cosines of a camera's pitch and yaw.
#[derive(Clone, Copy, Debug)]
pub struct AngleTrig {
    pub pitch: SinCos,
    pub yaw: SinCos,
}

/// Whether `transform` is the one derived from `state`: placed at the state's
/// position, looking at its focus, with the vertical axis upward.
pub open spec fn derived_from(
    transform: CameraTransform,
    state: OrbitState,
    pitch: SinCosValue,
    yaw: SinCosValue,
) -> bool {
    &&& transform.translation@ == state.position(pitch, yaw)
    &&& transform.looking_at == state.focus
    &&& transform.up == (Point3 { x: 0, y: UNIT, z: 0 })
}

/// Focus tracking for one camera.
pub fn update_focus(camera: &mut OrbitCamera, targets: &TargetRegistry)
    ensures
        final(camera)@ == following(old(camera)@, targets@),
{
    match camera.target() {
        Some(id) => {
            match targets.resolve(id) {
                Some(position) => {
                    camera.set_focus(position);
                },
                None => {},
            }
        },
        None => {},
    }
}

/// The transform of one camera, derived from its state and from the sines and
/// cosines of its pitch and yaw.
pub fn derive_transform(camera: &OrbitCamera, trig: &AngleTrig) -> (r: CameraTransform)
    ensures
        derived_from(r, camera@, trig.pitch@, trig.yaw@),
{
    CameraTransform {
        translation: camera.position(&trig.pitch, &trig.yaw),
        looking_at: camera.focus(),
        up: Point3::unit_y(),
    }
}

/// Focus tracking for every camera: each follows its own target, and a camera
/// whose target does not resolve keeps its focus.
pub fn update_camera(cameras: &mut Vec<OrbitCamera>, targets: &TargetRegistry)
    ensures
        final(cameras).len() == old(cameras).len(),
        forall|i: int|
            0 <= i < old(cameras).len() ==> (#[trigger] final(cameras)[i])@ == following(
                old(cameras)[i]@,
                targets@,
            ),
{
    let mut i: usize = 0;
    while i < cameras.len()
        invariant
            i <= cameras.len(),
            cameras.len() == old(cameras).len(),
            forall|j: int|
                0 <= j < i ==> (#[trigger] cameras[j])@ == following(old(cameras)[j]@, targets@),
            forall|j: int| i <= j < cameras.len() ==> cameras[j] == old(cameras)[j],
        decreases cameras.len() - i,
    {
        update_focus(&mut cameras[i], targets);
        i += 1;
    }
}

/// The transform of every camera that has its sines and cosines: the camera at
/// index `i` goes with `trig[i]`, and the result has one transform for each
/// such pair.
pub fn move_camera(cameras: &Vec<OrbitCamera>, trig: &Vec<AngleTrig>) -> (r: Vec<CameraTransform>)
    ensures
        r.len() == (if cameras.len() <= trig.len() {
            cameras.len()
        } else {
            trig.len()
        }),
        forall|i: int|
            0 <= i < r.len() ==> derived_from(
                #[trigger] r[i],
                cameras[i]@,
                trig[i].pitch@,
                trig[i].yaw@,
            ),
{
    let count: usize = if cameras.len() <= trig.len() {
        cameras.len()
    } else {
        trig.len()
    };
    let mut transforms: Vec<CameraTransform> = Vec::new();
    let mut i: usize = 0;
    while i < count
        invariant
            i <= count,
            count <= cameras.len(),
            count <= trig.len(),
            transforms.len() == i,
            forall|j: int|
                0 <= j < i ==> derived_from(
                    #[trigger] transforms[j],
                    cameras[j]@,
                    trig[j].pitch@,
                    trig[j].yaw@,
                ),
        decreases count - i,
    {
        let transform = derive_transform(&cameras[i], &trig[i]);
        transforms.push(transform);
        i += 1;
    }
    transforms
}

/// One frame: focus tracking for every camera, then the transform of every
/// camera, derived from the focus that the first step left.
pub fn synchronize(
    cameras: &mut Vec<OrbitCamera>,
    targets: &TargetRegistry,
    trig: &Vec<AngleTrig>,
) -> (r: Vec<CameraTransform>)
    ensures
        final(cameras).len() == old(cameras).len(),
        forall|i: int|
            0 <= i < old(cameras).len() ==> (#[trigger] final(cameras)[i])@ == following(
                old(cameras)[i]@,
                targets@,
            ),
        r.len() == (if old(cameras).len() <= trig.len() {
            old(cameras).len()
        } else {
            trig.len()
        }),
        forall|i: int|
            0 <= i < r.len() ==> derived_from(
                #[trigger] r[i],
                following(old(cameras)[i]@, targets@),
                trig[i].pitch@,
                trig[i].yaw@,
            ),
{
    update_camera(cameras, targets);
    move_camera(cameras, trig)
}

/// Focus tracking changes nothing but the focus.
pub proof fn lemma_following_keeps_orbit(state: OrbitState, targets: Map<TargetId, Point3>)
    ensures
        following(state, targets) == (OrbitState {
            focus: following(state, targets).focus,
            ..state
        }),
        state.valid() ==> following(state, targets).valid(),
{
}

/// A camera without a target, or with one whose handle does not resolve,
/// keeps its focus, and the rest of its state with it.
pub proof fn lemma_missing_target_keeps_focus(state: OrbitState, targets: Map<TargetId, Point3>)
    requires
        state.target matches Some(id) ==> !targets.contains_key(id),
    ensures
        following(state, targets) == state,
{
}

/// A camera that follows a target looks at the target's position after each
/// frame, and between two frames it moves exactly as the target moved, as long
/// as neither position leaves the range of the coordinates.
pub proof fn lemma_focus_tracking(
    state: OrbitState,
    id: TargetId,
    first: Map<TargetId, Point3>,
    second: Map<TargetId, Point3>,
    pitch: SinCosValue,
    yaw: SinCosValue,
)
    requires
        state.target == Some(id),
        first.contains_key(id),
        second.contains_key(id),
        first[id]@.plus(crate::orbit::relative_position(pitch, yaw, state.distance)).fits(),
        second[id]@.plus(crate::orbit::relative_position(pitch, yaw, state.distance)).fits(),
    ensures
        following(state, first).focus == first[id],
        following(following(state, first), second).focus == second[id],
        following(following(state, first), second).position(pitch, yaw).x - following(
            state,
            first,
        ).position(pitch, yaw).x == second[id].x - first[id].x,
        following(following(state, first), second).position(pitch, yaw).y - following(
            state,
            first,
        ).position(pitch, yaw).y == second[id].y - first[id].y,
        following(following(state, first), second).position(pitch, yaw).z - following(
            state,
            first,
        ).position(pitch, yaw).z == second[id].z - first[id].z,
{
    crate::orbit::lemma_position_follows_focus(
        following(state, first),
        following(following(state, first), second),
        pitch,
        yaw,
    );
}

} // verus!

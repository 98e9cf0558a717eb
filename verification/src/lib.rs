//! An orbit camera: a camera that sits on a sphere around a focus point and
//! always looks at it.
//!
//! All quantities are fixed-point numbers: an `i64` that counts millionths
//! (see [`fixed::UNIT`]). Distances and coordinates are in world units, angles
//! in radians. The library computes no sine or cosine: where a position is
//! asked for, the caller hands in those of the camera's angles
//! (see [`trig::SinCos`]).

pub mod fixed;
pub mod input;
pub mod interval;
pub mod orbit;
pub mod pipeline;
pub mod trig;
pub mod vector;

pub use crate::input::{rotate_camera, zoom_camera, DragScale, MouseMotion, MouseWheel};
pub use crate::orbit::{calculate_relative_position, OrbitCamera, OrbitCameraTarget, TargetId};
pub use crate::pipeline::{
    derive_transform, move_camera, synchronize, update_camera, update_focus, AngleTrig,
    CameraTransform, TargetRegistry,
};
pub use crate::trig::{direction, is_normalized, SinCos};
pub use crate::vector::Point3;

//! A small ray caster over an integer lattice.
//!
//! A scene is a list of triangle meshes, each placed by a translation. One ray
//! per pixel leaves the camera; the pixel is coloured when the ray meets a
//! triangle and stays black otherwise. All geometry is exact integer
//! arithmetic, so every statement made about it holds without tolerance.

pub mod camera;
pub mod color;
pub mod frame;
pub mod geometry;
pub mod intersect;
pub mod intersect_lemmas;
pub mod mesh;
pub mod render;
pub mod scene;
pub mod vector;
pub mod wide;

pub use camera::{Camera, MAX_PIXELS};
pub use color::{black, hit_color, scale_channel, Color};
pub use geometry::{Point3, Ray, Rotation, Transform, Triangle, Vector3};
pub use intersect::{Crossing, Hit, Tri3};
pub use mesh::Mesh;
pub use frame::{FrameBuffer, FrameView};
pub use render::{render, render_pixel, render_row, shade, RenderError};
pub use scene::{HitPolicy, Scene, SceneHit};
pub use vector::Vec3;

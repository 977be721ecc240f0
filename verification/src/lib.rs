//! Core of a streamed, mutable 3-D voxel world: coordinate addressing,
//! deterministic terrain generation, keyed chunk/mesh storage, windowed
//! streaming with throttled job draining, ray-voxel editing and swept
//! collision resolution.
//!
//! Geometry is exact: world positions are fixed-point integers and ray
//! parameters are rationals, so face tests that demand exact equality
//! (a fractional offset of exactly zero or one) are decidable.

pub mod addressing;
pub mod chunk;
pub mod codec;
pub mod collision;
pub mod editor;
pub mod geometry;
pub mod inventory;
pub mod mesh;
pub mod raycast;
pub mod remesh;
pub mod storage;
pub mod streaming;
pub mod terrain;
pub mod voxel;

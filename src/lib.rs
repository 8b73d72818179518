//! Narrow-phase collision detection on exact integer geometry: shape-pair
//! dispatch, persistent contact generators with identity-tracked manifolds,
//! and support-map distance queries.

pub mod math;
pub mod transform;
pub mod shape;
pub mod query;
pub mod generators;
pub mod dispatcher;
pub mod proximity;
pub mod id_allocator;
pub mod contact;
pub mod manifold;

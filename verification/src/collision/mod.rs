//! Collision logics.
//!
//! A collision logic gives the illusion of physical space: some bodies stop
//! others from moving through them. This one keeps a set of axis-aligned boxes,
//! finds the pairs that touch, and pushes overlapping solid boxes apart.

pub mod aabb;
pub mod bodies;
pub mod contact;
pub mod laws;
pub mod ratio;

//! A bounded voxel world: a dense occupancy grid, the list of its exposed
//! voxels, a ray march for digging, and a first-person movement controller
//! that asks the grid for collisions.
//!
//! Continuous quantities are kept in fixed point: positions in thousandths of
//! a world unit, angles in millionths of a radian.

pub mod point;
pub mod grid;
pub mod controller;

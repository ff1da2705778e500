//! Bodies of animals, and what moves them.
//!
//! A body is a tree of limbs. From it the crate makes a skeleton with one bone
//! for every body point and a skinned mesh for every limb, blends several
//! bodies into one, bends chains of bones toward targets, and moves those
//! targets with time.
//!
//! All lengths, weights, times and angles are whole numbers of steps, a
//! million to the unit, so that every result is an exact function of its
//! inputs.

pub mod animal_templates;
pub mod blend;
pub mod controller;
pub mod dimensions;
pub mod fixed;
pub mod geometry;
pub mod gradient;
pub mod ik;
pub mod mesh;
pub mod model;
mod pairs;
pub mod rig;
pub mod skeleton;
pub mod trajectory;

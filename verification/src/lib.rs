//! Deterministic, frame-sampled animation evaluator.
//!
//! A scene is a set of entities whose numeric properties are driven by
//! keyframe curves.  Given a target frame number, the evaluator produces the
//! fully resolved, static geometry and paint state of every visible entity at
//! that instant.  All numeric quantities (keyframe values, time offsets,
//! colours' alpha, spring parameters) are fixed-point numbers: a value of
//! `SCALE` micro-units stands for `1.0`.

pub mod entities;
pub mod fixed;
pub mod interpolations;
pub mod keyframe;
pub mod paint;
pub mod spring;
pub mod timeline;
pub mod transform;
mod trusted;
pub mod utils;
pub mod values;

pub use fixed::SCALE;

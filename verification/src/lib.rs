//! A small two-dimensional rigid-body world and the controller that keeps a
//! list of spawned boxes in step with it.
//!
//! The world's bodies and colliders are kept by `rapier2d`. This crate owns the
//! bookkeeping around them: which handles exist, which collider hangs on which
//! body, which visual node belongs to which body, and what a frame consists of.
//! Coordinates never appear here: bodies and colliders arrive already built.

pub mod controller;
pub mod engine;
pub mod error;
pub mod handle;
pub mod naming;
pub mod physics;

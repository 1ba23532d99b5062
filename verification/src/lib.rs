//! The core of a small interactive 3D scene: a viewpoint, a square arena of
//! a floor, four walls and a light, and a subject that turns about the
//! vertical axis to face the viewpoint on every frame.
//!
//! Everything is computed in fixed-point arithmetic on integers (see
//! [`scalar`]), so that every result is exact, the same on every machine,
//! and open to proof: each function states what it returns, and Verus
//! proves that it does.
//!
//! - [`scalar`], [`algebra`], [`vector`], [`rotation`]: the arithmetic.
//! - [`entity`], [`store`]: what an entity carries, and the store of all
//!   entities.
//! - [`arena`]: the layout of the arena.
//! - [`startup`]: what runs once before the first frame.
//! - [`facing`]: what runs on every frame.

pub mod scalar;
pub mod algebra;
pub mod vector;
pub mod rotation;
pub mod error;
pub mod entity;
pub mod store;
pub mod arena;
pub mod startup;
pub mod facing;

//! Storage core of an entity-component runtime.
//!
//! - An [`Entity`] is just an identifier: a recyclable index paired with a
//!   128-bit value that tells successive owners of the index apart. It
//!   contains no data or logic whatsoever.
//! - A [`Component`] is a piece of data of fixed size (eg: Position,
//!   Velocity, Colour) that can be stored as one row of bytes.
//! - A [`buffer::Buffer`] is a growable region of bytes that is read and
//!   written in rows of a fixed stride.
//! - A [`component::ComponentList`] keeps the rows of one component type,
//!   together with a bitmap that says which indices hold a value.
//! - An [`entity::EntityManager`] issues, validates and recycles entities.

pub mod buffer;
pub mod component;
pub mod entity;
pub mod scalars;

pub use component::{Component, ComponentId};
pub use entity::Entity;

//! A registry of entity classes and component types, shared by a game server
//! and its clients so that both construct entities in the same way.
//!
//! Every class and every component type is registered under a name and gets
//! a small number as its id, in the order of registration. A class is built
//! from construction contributions, which independent parts of a game add
//! under the name of the class and which are applied in the order in which
//! they were added.
//!
//! - [`registry`] holds the registry and its ids, [`entity`] a smaller
//!   registry of entity classes alone, [`defs`] the ids of clients and
//!   players.
//! - [`model`] says what a registry is as a mathematical value, and [`laws`]
//!   proves what holds of every sequence of registrations.
//! - [`names`] and [`construction`] hold what both registries are made of:
//!   the table from names to ids, and the application of contributions.

pub mod construction;
pub mod defs;
pub mod entity;
pub mod laws;
pub mod model;
pub mod names;
pub mod registry;

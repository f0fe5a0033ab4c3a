//! The construction container: typed constructors are registered, resolved
//! into one instance per type, and the instances are read, used and replaced.

pub mod access;
pub mod container;
pub mod descriptor;
pub mod error;
pub mod function;
pub mod guard;
pub mod laws;
pub mod registry;
pub mod resolution;
pub mod store;

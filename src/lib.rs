//! An addressable, concurrently inspectable physical memory for an emulated
//! machine: a flat byte space with a mapped video window, a reader/writer
//! locked wrapper shared by the executing core and its inspectors, and the
//! row view that inspectors display.
pub mod error;
pub mod address_space;
pub mod physical;
pub mod inspector;

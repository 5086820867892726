//! Pins a package registry to the state it had on a given date.
//!
//! - [`catalog`]: the toolchain release catalog, and how a date, a version or the
//!   installed toolchain resolves to a cutoff date.
//! - [`snapshot`]: the version-control protocol that freezes the registry index at the
//!   newest commit on or before the cutoff, as a state machine whose steps a caller runs.
//! - [`config`]: the rewrite of the local configuration that points the default
//!   registry at the frozen copy.
//! - [`text`]: the character-level helpers the others are stated and built on.
pub mod catalog;
pub mod config;
pub mod snapshot;
pub mod text;

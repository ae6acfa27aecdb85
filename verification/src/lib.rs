//! Importing password-protected validator key containers into a managed key
//! store: discovery of candidates, the per-candidate import protocol, and the
//! registry of imported keys.
//!
//! The library decides; it performs no input or output. A driver carries out
//! each [`import::Action`] and reports what happened as an [`import::Event`].
//!
//! - [`corpus`]: the line that announces a block of a fuzzing corpus.
//! - [`discovery`]: which files are candidates, and in what order.
//! - [`paths`]: joining paths, file names, and the directory of a key.
//! - [`registry`]: the definitions of imported keys, no identity twice.
//! - [`model`]: the import protocol as a transition function.
//! - [`import`]: the machine that computes the protocol.
//! - [`laws`]: what holds of every run.
//! - [`disk`]: what holds of the disk when the driver reports truthfully.
//! - [`error`]: what can go wrong, and how it is reported.
//! - [`text`]: text as sequences of characters.

pub mod corpus;
pub mod discovery;
pub mod disk;
pub mod error;
pub mod import;
pub mod laws;
pub mod model;
pub mod paths;
pub mod registry;
pub mod text;

//! Deployment of an application package to a HarmonyOS device through the
//! `hdc` bridge tool: the decisions of one deployment attempt, verified.
//!
//! The crate performs no I/O. A driver spawns processes, fetches files and
//! touches the disk; it asks [`pipeline::Deployment`] what to do next and
//! reports back what happened.

pub mod archive;
pub mod enclosure;
pub mod events;
pub mod failure;
pub mod laws;
pub mod lines;
pub mod locate;
pub mod paths;
pub mod pipeline;
pub mod text;

//! Provisioning of a self-contained interpreter environment, as decisions.
//!
//! An environment is assembled from the embeddable archive of an interpreter
//! version and the libraries of a host installation; then the package
//! manager is installed into it, and with it the declared dependencies.
//!
//! This crate holds every rule of that work and does none of its input or
//! output. It reads versions, names what is downloaded, chooses the host
//! installation and the entries to copy, patches the configuration text,
//! says what is run and in which order, and judges how each step ended. The
//! caller downloads, unpacks, copies and runs, and hands back what it found.

pub mod assemble;
pub mod bootstrap;
pub mod error;
pub mod fetch;
pub mod locate;
pub mod merge;
pub mod patch;
pub mod paths;
pub mod process;
pub mod requirements;
pub mod text;
pub mod version;
pub mod workflow;

//! Tracking of known environments: a registry of canonical paths, the
//! descriptors read from it, and the split into active and inactive ones.

pub mod bytes;
pub mod config;
pub mod display;
pub mod environment;
pub mod envs;
pub mod error;
pub mod flox;
pub mod go;
pub mod key;
pub mod registered;
pub mod registry;
pub mod registry_laws;
pub mod variables;

//! Tools for cross-building crates for a Fuchsia target: a parser for GN-style
//! build files, target naming, and the layout of the build tree.

pub mod cargo_interop;
pub mod commands;
pub mod cross;
pub mod device;
pub mod facade;
pub mod gn;
pub mod gn_deps;
pub mod sdk;
pub mod text;
pub mod update_crates;
pub mod utils;

pub use sdk::TargetOptions;

//! Registry, update decision and patch orchestration for third-party add-ons
//! of a single target game.
//!
//! The crate models a registry of add-on descriptors, resolves which release
//! assets an add-on needs on a given host platform, decides whether an update
//! or an installation is due, classifies installer exit codes, and encodes the
//! registry to its on-disk document. All decision logic is verified; callers
//! perform the surrounding network, file and process work and feed the
//! results back in as plain values.

pub mod apps;
pub mod codec;
pub mod config;
pub mod patch;
pub mod releases;
pub mod resolver;
pub mod steam;
pub mod text;
pub mod ui;
pub mod update;

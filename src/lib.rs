//! The package-lifecycle core of a host agent: package identities and their
//! version order, archive metadata, lifecycle hooks, service control and the
//! background updater.

pub mod archive;
pub mod error;
pub mod hooks;
pub mod lifecycle;
pub mod package;
pub mod text;
pub mod updater;
pub mod version;

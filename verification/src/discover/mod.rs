//! Discovery: the plugin engine that turns framework conventions into entry
//! points, the package registry, and the manifest readers.

pub mod plugin_def;
pub mod globs;
pub mod registry;
pub mod manifest;
pub mod packages;
pub mod walk;

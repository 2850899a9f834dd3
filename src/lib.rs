//! Version bumping for package manifests, single packages and workspaces.

pub mod manifest;
pub mod paths;
pub mod text;
pub mod workspace;
pub mod toml;
pub mod version;

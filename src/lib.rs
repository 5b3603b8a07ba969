//! Semantic-version bump propagation across a multi-package workspace with a
//! stable and a prerelease release channel.

pub mod instruction;
pub mod laws;
pub mod logging;
pub mod maintenance;
pub mod node;
pub mod package;
pub mod text;
pub mod tree;
pub mod version;
pub mod workspace;

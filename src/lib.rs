//! Decision and formatting core of a directory-listing tool: tree rendering
//! with hidden-file and glob filtering, permission and size text, and the
//! persisted directory-color preference.

pub mod color;
pub mod perm;
pub mod size;
pub mod text;
pub mod tree;
pub mod walk;

//! Bundles project source files into one Markdown document: the export
//! list, the file tree, previews and the Markdown format itself.
pub mod text;
pub mod pathname;
pub mod language;
pub mod markdown;
pub mod preview;
pub mod collections;
pub mod highlight_cache;
pub mod fs_tree;
pub mod state;
pub mod layout;

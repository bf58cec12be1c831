//! The typst.ts command line: its arguments, the paths derived from them, the
//! folding of background work, and the renderer's fonts.
//!
//! Paths are read by POSIX rules throughout: `/` is the only separator and
//! the root, and there are no drive prefixes. On Windows, where `std::path`
//! also takes `\\` and prefixes such as `C:`, the paths that this crate
//! derives (workspace root, virtual paths, output directory) can differ from
//! those that `std::path` and typst would give.

pub mod args;
pub mod diagnostics;
pub mod input;
pub mod paths;
pub mod renderer;
pub mod task;
pub mod text;
pub mod vpath;

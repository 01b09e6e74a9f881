//! Batch media-conversion pipeline core.
//!
//! Walks an in-memory model of an input directory tree, derives one
//! conversion task per eligible file (a regular file whose name carries a
//! non-empty extension), mirrors the input's directory structure under an
//! output root, counts progress one increment per finished task, and keeps
//! per-task failures from touching any other task. The image decode step is
//! an external collaborator; PNG encoding is reached through `lodepng`.
//!
//! File names and path components are byte strings, as the operating system
//! stores them.

pub mod name;
pub mod tree;
pub mod walker;
pub mod progress;
pub mod runner;
pub mod codec;
pub mod cli;

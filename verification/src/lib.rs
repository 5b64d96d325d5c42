//! Literate programming on documents: the code of fenced blocks is written
//! out as source files named by the front matter, documents are rendered to
//! pages, and the pages are listed in a manifest.
//!
//! This library holds the rules. It reads no file and starts no program:
//! the caller hands it text and what it found on disk, and gets back text
//! and what to do next.

pub mod blocks;
pub mod cli;
pub mod extract;
pub mod merge;
pub mod render;
pub mod scan;
pub mod store;
pub mod text;
pub mod walk;

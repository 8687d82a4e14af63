//! Font catalog scanner: walks the entries of a directory tree (handed in by
//! the caller), keeps the files with the TrueType extension, parses each one
//! as an sfnt container and extracts the font's full display name.
//!
//! The filesystem walk and the file reads live outside this crate; the
//! library receives the read results as plain values and does the filtering,
//! parsing and collecting, with contracts over a mathematical model of the
//! scan.

pub mod laws;
pub mod path_ext;
pub mod scan;
pub mod ttf;

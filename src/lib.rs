//! Locates a native library inside the split APKs of an Android application
//! and derives the paths that the search needs.
pub mod archive;
pub mod arch;
pub mod error;
pub mod locate;
pub mod paths;
pub mod text;

//! A library for declaring the expected shape of a directory tree, creating
//! that shape on disk, and validating an existing tree against it.
//!
//! The heart of the crate is the shape subsystem: a schema describes which
//! files and directories a tree must contain, the instantiator materializes
//! the schema at a target root, and the validator walks an existing tree and
//! collects every deviation from the schema instead of stopping at the first.

pub mod dir;
pub mod error;
pub mod file;
pub mod model;
mod outside;
pub mod path_stuff;
pub mod pattern;
pub mod schema;
pub mod shape;

pub use dir::Dir;
pub use dir::DirEntry;
pub use error::Error;
pub use error::ErrorKind;
pub use file::File;
pub use path_stuff::ParsedPathDir;
pub use path_stuff::ParsedPathFile;
pub use shape::Shape;

//! Selective, structure-preserving file copying.
//!
//! Given a source directory, a set of filename suffixes and a set of excluded
//! directories, the library decides which files are to be copied, how large
//! they are together, and where each one goes under the destination root.
//! Reading directories and moving bytes is left to the surrounding
//! application; everything that can be decided on plain values is verified
//! here.

pub mod args;
pub mod exclusions;
pub mod files;
pub mod lines;
pub mod paths;
pub mod suffixes;
pub mod tmp;
pub mod tmp_directory;
pub mod tmp_file;

pub use crate::tmp::create_unique_filename;
pub use crate::tmp::tmp_path;
pub use crate::tmp_directory::TmpDirectory;
pub use crate::tmp_file::TmpFile;

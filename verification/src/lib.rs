//! A file-bundling engine: packs inline payloads and loaded files into one
//! ZIP-compatible archive held in memory, and turns such an archive back into
//! the ordered list of directories and files to materialise.

pub mod archive;
pub mod entry;
pub mod bundler;
pub mod unbundler;
pub mod digest;
pub mod round_trip;

pub use crate::bundler::bundle;
pub use crate::round_trip::{bundle_checked, gives_back};
pub use crate::digest::hash_bytes;
pub use crate::entry::{BundleError, FileContent, FileEntry, FileRead, SourcedEntry};
pub use crate::unbundler::{unbundle, Extraction, Stopped, UnbundleError};

//! Resolution of a BTF file for CO-RE relocation on kernels that expose none.
//!
//! A gzip-compressed tar archive holds one minimal BTF file per distribution
//! and kernel release. The library decompresses the archive, walks its entries
//! once, picks the entry whose path names the running system and frames the
//! result for a native caller. Everything that touches the file system or the
//! native allocator is left to the caller, which is driven through
//! [`operation::step`].

pub mod archive;
pub mod config;
pub mod error;
pub mod gzip;
pub mod handle;
pub mod operation;
pub mod scan;
pub mod source;
pub mod target;

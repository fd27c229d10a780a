//! Decoder for Windows thumbnail-cache databases (`thumbcache_*.db`).
//!
//! A database is a byte buffer: a 32-byte file header that names the format
//! revision and the kind of cache, followed by a list of variable-length
//! records, each holding one cached thumbnail. The decoder works on a buffer
//! that is already in memory and never touches the file system.

pub mod codec;
pub mod cursor;
pub mod database;
pub mod entry;
pub mod header;
pub mod laws;
pub mod types;

pub use crate::codec::clone_into_array;
pub use crate::cursor::ByteCursor;
pub use crate::database::Thumbscache;
pub use crate::entry::{Layout, Step};
pub use crate::types::{CacheEntry, CacheType, IoFailure, ThumbsError, WindowsVersion};

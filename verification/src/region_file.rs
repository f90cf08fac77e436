//! The container format: position codec, byte source, chunk descriptors,
//! the header table and the decompression dispatch.

pub mod chunk;
pub mod codec;
pub mod decode;
pub mod error;
pub mod source;
pub mod header;
pub mod scan;

pub use crate::region_file::chunk::{Chunk, ChunkHeader};
pub use crate::region_file::codec::{Coords, Location, SECTOR_SIZE};
pub use crate::region_file::decode::CompressionType;
pub use crate::region_file::error::RegionError;
pub use crate::region_file::header::{Header, IterHeader, IterHeaderMut};
pub use crate::region_file::source::ByteSource;

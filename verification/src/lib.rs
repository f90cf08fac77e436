//! Reader for region containers: a fixed 32 x 32 grid of individually
//! compressed chunks stored in one sector-addressed file. Beside it, the
//! block replacement tables and their conversion from loosely typed JSON.

pub mod decimal;
pub mod region_file;
pub mod replacements;

pub use crate::replacements::convert::convert_json_dirty;

//! Block replacement definitions.

pub mod convert;
pub mod definitions;
pub mod json;
pub mod key;
pub mod number;

pub use crate::replacements::definitions::{BlockData, BlockId, BlockReplacement, Replacements};
pub use crate::replacements::json::JsonValue;
pub use crate::replacements::key::ValOrAny;

//! Reading and writing of binary data.

pub mod convertable;
pub mod map;
pub mod stream;
pub mod wire;

pub use crate::loaders::convertable::{ByteConvertable, FixedByteSize};
pub use crate::loaders::stream::{ByteStream, ConversionError, Version};

//! The modules that callers of the codec need.

pub use crate::decoder;
pub use crate::encoder;
pub use crate::error;
pub use crate::types;

//! The extension traits, for glob import.

pub use crate::str::StrExt;
pub use crate::vec::VecExt;

//! Collections.

pub mod uvec;

pub use uvec::DecimalKey;
pub use uvec::Identity;
pub use uvec::KeyFn;
pub use uvec::UniqueKey;
pub use uvec::Uvec;

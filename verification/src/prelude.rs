//! A "batteries-included" module that re-exports frequently used types.

pub use crate::parser::Input;
pub use crate::parser::Iter;
pub use crate::priority::Priority;
pub use crate::tags::Tag;
pub use crate::task::State;
pub use crate::task::Task;

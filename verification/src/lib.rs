//! A verified parser for the todo.txt task-list format: one task per line,
//! each line carrying an optional completion marker, priority, dates, and a
//! free-text description with inline context/project/metadata tags.
//!
//! Every line decodes into some [`Task`]: malformed fields degrade into plain
//! description text instead of raising errors.

pub mod date;
pub mod parser;
pub mod prelude;
pub mod priority;
pub mod tags;
pub mod task;
pub mod text;

pub use date::Date;
pub use parser::Input;
pub use parser::Iter;
pub use priority::Priority;
pub use tags::next_word_boundary;
pub use tags::Tag;
pub use tags::Tags;
pub use task::State;
pub use task::Task;
pub use text::is_not_whitespace;
pub use text::is_whitespace;

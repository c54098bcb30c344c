//! Maps the progress of nested subtasks onto one absolute progress total
//! that any number of readers can watch.
//!
//! A root [`Progress`] owns an absolute range. It hands slices of that range
//! to subtasks, which may split them again. Each subtask reports progress in
//! its own internal unit. The node converts that progress into its share of
//! the absolute range and adds the result to the shared total.

pub mod channel;
pub mod conversion;
pub mod progress;

pub use conversion::convert;
pub use progress::Progress;

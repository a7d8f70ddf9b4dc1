//! Task lists grouped into collections: the state behind a to-do window.

pub mod collection;
pub mod filter;
pub mod task;
pub mod window;

pub use collection::{CollectionData, CollectionObject};
pub use filter::TaskFilter;
pub use task::{TaskData, TaskObject};
pub use window::{StackPage, Window};

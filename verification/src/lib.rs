//! A verified task-list core: an index-addressed store of task records with
//! append, replace, remove and snapshot operations, plus the parsing helpers
//! the surrounding service needs.
//!
//! Identity of a task is purely positional: a task's id is its current index
//! in the sequence, so removing index `i` shifts the id of every later task
//! down by one. Callers must not cache an id across a removal.

pub mod api;
pub mod parse;
pub mod store;
pub mod task;

pub use api::delete_task;
pub use api::show_tasks;
pub use api::store_task;
pub use api::update_task;
pub use api::ApiStatus;
pub use store::TaskStore;
pub use task::Task;
pub use task::TaskModel;

//! The task record: a message and a completion flag.

use vstd::prelude::*;

verus! {

/// Mathematical model of a task: the character sequence of its message and
/// its completion flag.
#[verifier::ext_equal]
pub ghost struct TaskModel {
    pub message: Seq<char>,
    pub done: bool,
}

/// A task record. A task has no identity of its own; its id is its current
/// position in the store's sequence.
pub struct Task {
    pub message: String,
    pub done: bool,
}

impl View for Task {
    type V = TaskModel;

    open spec fn view(&self) -> TaskModel {
        TaskModel { message: self.message@, done: self.done }
    }
}

impl Task {
    /// A fresh task carries the given message and is not yet done.
    pub fn new(message: String) -> (t: Self)
        ensures
            t@.message == message@,
            t@.done == false,
    {
        Self { message, done: false }
    }
}

impl Clone for Task {
    /// A clone denotes the same task: same message, same flag.
    fn clone(&self) -> (t: Self)
        ensures
            t@ == self@,
    {
        Task { message: self.message.clone(), done: self.done }
    }
}

} // verus!

//! The request-level surface of the service: each HTTP endpoint maps 1:1 onto
//! one store operation.
//!
//! The transport layer (routing, JSON bodies, CORS headers) stays outside
//! this crate; it hands each function the already-decoded values and turns
//! the returned snapshot and status back into a response. Every mutating
//! endpoint returns the fresh snapshot, so a client can resynchronize in one
//! round trip instead of trusting its own optimistic state.

use vstd::prelude::*;

use crate::store::tasks_view;
use crate::store::TaskStore;
use crate::task::Task;

verus! {

/// The outcome reported to the caller of an endpoint. An out-of-range id is
/// an ordinary `NotFound` outcome, never a crash: no request may take the
/// process down.
#[derive(Clone, Copy, Debug, PartialEq, Eq, Structural)]
pub enum ApiStatus {
    Okay,
    NotFound,
}

impl ApiStatus {
    /// The wire token for this status, as the endpoints report it.
    pub fn text(&self) -> (s: &'static str)
        ensures
            *self == ApiStatus::Okay ==> s@ == "Ok"@,
            *self == ApiStatus::NotFound ==> s@ == "Not found"@,
    {
        match self {
            ApiStatus::Okay => "Ok",
            ApiStatus::NotFound => "Not found",
        }
    }
}

/// `POST /task`: appends the task; its id is the store's previous length.
/// Never fails. Returns the updated snapshot.
pub fn store_task(store: &mut TaskStore, task: Task) -> (snap: Vec<Task>)
    ensures
        final(store)@ == old(store)@.push(task@),
        tasks_view(snap@) == final(store)@,
{
    store.append(task)
}

/// `PUT /task/{id}`: replaces the record at `id` wholesale when `id` is in
/// range; otherwise reports `NotFound` and leaves the store untouched.
/// Returns the (possibly unchanged) snapshot alongside the status.
pub fn update_task(store: &mut TaskStore, id: usize, task: Task) -> (r: (Vec<Task>, ApiStatus))
    ensures
        r.1 == ApiStatus::Okay <==> id < old(store)@.len(),
        id < old(store)@.len() ==> final(store)@ == old(store)@.update(id as int, task@),
        id >= old(store)@.len() ==> final(store)@ == old(store)@ && r.1 == ApiStatus::NotFound,
        tasks_view(r.0@) == final(store)@,
{
    let (snap, found) = store.replace_at(id, task);
    (snap, if found { ApiStatus::Okay } else { ApiStatus::NotFound })
}

/// `DELETE /task/{id}`: removes the record at `id` when `id` is in range,
/// shifting every later record down by one id; otherwise reports `NotFound`
/// and leaves the store untouched. Returns the (possibly unchanged) snapshot
/// alongside the status.
pub fn delete_task(store: &mut TaskStore, id: usize) -> (r: (Vec<Task>, ApiStatus))
    ensures
        r.1 == ApiStatus::Okay <==> id < old(store)@.len(),
        id < old(store)@.len() ==> final(store)@ == old(store)@.remove(id as int),
        id >= old(store)@.len() ==> final(store)@ == old(store)@ && r.1 == ApiStatus::NotFound,
        tasks_view(r.0@) == final(store)@,
{
    let (snap, found) = store.remove_at(id);
    (snap, if found { ApiStatus::Okay } else { ApiStatus::NotFound })
}

/// `GET /tasks`: the full snapshot, in insertion order. Reads nothing but the
/// store and changes nothing.
pub fn show_tasks(store: &TaskStore) -> (snap: Vec<Task>)
    ensures
        tasks_view(snap@) == store@,
{
    store.snapshot()
}

} // verus!

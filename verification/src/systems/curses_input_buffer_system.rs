//! Queueing the input read from the curses window.

use vstd::prelude::*;

use crate::curses_input::CursesInput;

verus! {

/// The queue after an input was read: with the input appended when there was
/// one.
pub open spec fn queued(queue: Seq<CursesInput>, input: Option<CursesInput>) -> Seq<CursesInput> {
    match input {
        Some(i) => queue.push(i),
        None => queue,
    }
}

fn enqueue(queue: &mut Vec<CursesInput>, input: Option<CursesInput>)
    ensures
        final(queue)@ == queued(old(queue)@, input),
{
    match input {
        Some(i) => queue.push(i),
        None => {},
    }
}

/// Reads input from the curses window into the event queue (event-queue
/// variant).
#[derive(Debug, Copy, Clone)]
pub struct CursesInputBuffer;

impl CursesInputBuffer {
    /// Appends the input read this frame, if any, to the queue.
    pub fn buffer(&self, queue: &mut Vec<CursesInput>, input: Option<CursesInput>)
        ensures
            final(queue)@ == queued(old(queue)@, input),
    {
        enqueue(queue, input)
    }
}

/// Reads input from the curses window into the event queue.
#[derive(Debug, Copy, Clone)]
pub struct CursesInputBufferSystem;

impl CursesInputBufferSystem {
    /// Appends the input read this frame, if any, to the queue.
    pub fn buffer(&self, queue: &mut Vec<CursesInput>, input: Option<CursesInput>)
        ensures
            final(queue)@ == queued(old(queue)@, input),
    {
        enqueue(queue, input)
    }
}

} // verus!

use vstd::prelude::*;

verus! {

/// One entry of the timeline: a decoded trace record, possibly carrying a
/// reconstructed call stack (leaf first).
pub struct Event {
    pub name: String,
    pub timestamp: i64,
    pub thread_id: u32,
    pub stack: Option<Vec<u64>>,
    pub cpu: u16,
    pub bad_stack: bool,
}

/// The mathematical value of an [`Event`].
pub struct EventModel {
    pub name: Seq<char>,
    pub timestamp: i64,
    pub thread_id: u32,
    pub stack: Option<Seq<u64>>,
    pub cpu: u16,
    pub bad_stack: bool,
}

pub open spec fn stack_view(s: Option<Vec<u64>>) -> Option<Seq<u64>> {
    match s {
        Some(v) => Some(v@),
        None => None,
    }
}

impl View for Event {
    type V = EventModel;

    open spec fn view(&self) -> EventModel {
        EventModel {
            name: self.name@,
            timestamp: self.timestamp,
            thread_id: self.thread_id,
            stack: stack_view(self.stack),
            cpu: self.cpu,
            bad_stack: self.bad_stack,
        }
    }
}

/// The model of a whole timeline.
pub open spec fn timeline_view(events: Seq<Event>) -> Seq<EventModel> {
    events.map_values(|e: Event| e@)
}

impl Event {
    /// A fresh timeline entry, without a stack.
    pub fn new(name: String, timestamp: i64, thread_id: u32, cpu: u16) -> (r: Event)
        ensures
            r@ == (EventModel {
                name: name@,
                timestamp,
                thread_id,
                stack: None,
                cpu,
                bad_stack: false,
            }),
    {
        Event { name, timestamp, thread_id, stack: None, cpu, bad_stack: false }
    }
}

/// Bookkeeping of one observed thread.
pub struct ThreadState {
    pub process_id: u32,
    /// Timeline indices whose kernel-mode fragment is attached but whose user-mode
    /// continuation has not been seen yet, in the order they were registered.
    pub events_with_unfinished_kernel_stacks: Vec<usize>,
}

/// The mathematical value of a [`ThreadState`].
pub struct ThreadModel {
    pub process_id: u32,
    pub pending: Seq<usize>,
}

impl View for ThreadState {
    type V = ThreadModel;

    open spec fn view(&self) -> ThreadModel {
        ThreadModel { process_id: self.process_id, pending: self.events_with_unfinished_kernel_stacks@ }
    }
}

impl ThreadState {
    pub fn new(process_id: u32) -> (r: ThreadState)
        ensures
            r@ == (ThreadModel { process_id, pending: Seq::<usize>::empty() }),
    {
        ThreadState { process_id, events_with_unfinished_kernel_stacks: Vec::new() }
    }
}

} // verus!

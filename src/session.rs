use vstd::prelude::*;

use std::collections::HashMap;

use crate::address::{kernel_start, kernel_space_start};
use crate::identity::{carries_thread, effective_thread_id, RecordKind};
use crate::correlator::{
    correlate_spec, pending_ok, scan_fragment, stacks_kept, CorrelationError, CorrelationState,
    Diagnostic, Fragment,
};
use crate::timeline::{Event, EventModel, ThreadModel, ThreadState, timeline_view};

verus! {

broadcast use vstd::std_specs::hash::group_hash_axioms;

/// The whole state of one trace-processing pass: the timeline, the bookkeeping
/// of every observed thread, and the process-id to image-name mapping.
pub struct StackCorrelator {
    pub events: Vec<Event>,
    pub threads: HashMap<u32, ThreadState>,
    pub processes: HashMap<u32, String>,
    /// First address that counts as kernel space.
    pub kernel_start: u64,
}

/// The bookkeeping of thread `tid` when a fragment of process `pid` arrives:
/// the existing one, or a fresh one with nothing pending.
pub open spec fn thread_before(threads: Map<u32, ThreadState>, tid: u32, pid: u32) -> ThreadModel {
    if threads.contains_key(tid) {
        threads[tid]@
    } else {
        ThreadModel { process_id: pid, pending: Seq::empty() }
    }
}

impl StackCorrelator {
    /// Every thread's pending indices name distinct timeline events that carry a stack.
    pub open spec fn wf(&self) -> bool {
        forall|tid: u32|
            #[trigger] self.threads@.contains_key(tid) ==> pending_ok(
                timeline_view(self.events@),
                self.threads@[tid]@.pending,
            )
    }

    /// Whether the last address of `addresses` lies in kernel space.
    pub open spec fn ends_in_kernel(&self, addresses: Seq<u64>) -> bool {
        addresses.last() >= self.kernel_start
    }

    /// An empty pass over a trace with `pointer_size`-byte pointers.
    pub fn new(pointer_size: u32) -> (r: StackCorrelator)
        ensures
            r.wf(),
            r.events@.len() == 0,
            r.threads@ == Map::<u32, ThreadState>::empty(),
            r.processes@ == Map::<u32, String>::empty(),
            r.kernel_start == kernel_start(pointer_size),
    {
        Self::with_kernel_start(kernel_space_start(pointer_size))
    }

    /// An empty pass whose kernel space starts at `kernel_start`.
    pub fn with_kernel_start(kernel_start: u64) -> (r: StackCorrelator)
        ensures
            r.wf(),
            r.events@.len() == 0,
            r.threads@ == Map::<u32, ThreadState>::empty(),
            r.processes@ == Map::<u32, String>::empty(),
            r.kernel_start == kernel_start,
    {
        StackCorrelator {
            events: Vec::new(),
            threads: HashMap::new(),
            processes: HashMap::new(),
            kernel_start,
        }
    }

    /// Whether `ip` lies in this trace's kernel space.
    pub fn is_kernel(&self, ip: u64) -> (r: bool)
        ensures
            r == (ip >= self.kernel_start),
    {
        ip >= self.kernel_start
    }

    /// Appends a plain record to the timeline and returns its index.
    pub fn push_event(&mut self, name: String, timestamp: i64, thread_id: u32, cpu: u16) -> (r:
        usize)
        requires
            old(self).wf(),
            old(self).events@.len() < usize::MAX,
        ensures
            final(self).wf(),
            r == old(self).events@.len(),
            timeline_view(final(self).events@) == timeline_view(old(self).events@).push(
                EventModel { name: name@, timestamp, thread_id, stack: None, cpu, bad_stack: false },
            ),
            final(self).threads@ == old(self).threads@,
            final(self).processes@ == old(self).processes@,
            final(self).kernel_start == old(self).kernel_start,
    {
        let ghost before = timeline_view(self.events@);
        let r = self.events.len();
        self.events.push(Event::new(name, timestamp, thread_id, cpu));
        assert(timeline_view(self.events@) =~= before.push(self.events@[r as int]@));
        assert forall|tid: u32| #[trigger] self.threads@.contains_key(tid) implies pending_ok(
            timeline_view(self.events@),
            self.threads@[tid]@.pending,
        ) by {
            let p = self.threads@[tid]@.pending;
            assert(pending_ok(before, p));
            assert forall|k: int| 0 <= k < p.len() implies #[trigger] p[k] < timeline_view(
                self.events@,
            ).len() && timeline_view(self.events@)[p[k] as int].stack is Some by {
                assert(p[k] < before.len());
            }
        }
        r
    }

    /// Appends a decoded record to the timeline under the thread it is
    /// attributed to: the payload's thread for samples and context switches,
    /// the record's own otherwise. Returns the new entry's index.
    pub fn record_event(
        &mut self,
        kind: RecordKind,
        name: String,
        timestamp: i64,
        native_thread_id: u32,
        payload_thread_id: u32,
        cpu: u16,
    ) -> (r: usize)
        requires
            old(self).wf(),
            old(self).events@.len() < usize::MAX,
        ensures
            final(self).wf(),
            r == old(self).events@.len(),
            timeline_view(final(self).events@) == timeline_view(old(self).events@).push(
                EventModel {
                    name: name@,
                    timestamp,
                    thread_id: if carries_thread(kind) {
                        payload_thread_id
                    } else {
                        native_thread_id
                    },
                    stack: None,
                    cpu,
                    bad_stack: false,
                },
            ),
            final(self).threads@ == old(self).threads@,
            final(self).processes@ == old(self).processes@,
            final(self).kernel_start == old(self).kernel_start,
    {
        let thread_id = effective_thread_id(kind, native_thread_id, payload_thread_id);
        self.push_event(name, timestamp, thread_id, cpu)
    }

    /// The timeline indices still waiting for a user-mode continuation on
    /// thread `thread_id`, oldest first; empty for a thread never seen.
    pub fn unfinished_kernel_stacks(&self, thread_id: u32) -> (r: Vec<usize>)
        ensures
            r@ == if self.threads@.contains_key(thread_id) {
                self.threads@[thread_id]@.pending
            } else {
                Seq::<usize>::empty()
            },
    {
        let mut r: Vec<usize> = Vec::new();
        match self.threads.get(&thread_id) {
            Some(state) => {
                let pending = &state.events_with_unfinished_kernel_stacks;
                let mut k: usize = 0;
                while k < pending.len()
                    invariant
                        k <= pending@.len(),
                        r@ == pending@.subrange(0, k as int),
                    decreases pending@.len() - k,
                {
                    r.push(pending[k]);
                    k = k + 1;
                    assert(r@ =~= pending@.subrange(0, k as int));
                }
                assert(pending@.subrange(0, pending@.len() as int) =~= pending@);
            },
            None => {},
        }
        r
    }

    /// Records the image name of process `process_id`; a later record replaces an earlier one.
    pub fn record_process(&mut self, process_id: u32, image_file_name: String)
        ensures
            final(self).processes@ == old(self).processes@.insert(process_id, image_file_name),
            final(self).events@ == old(self).events@,
            final(self).threads@ == old(self).threads@,
            final(self).kernel_start == old(self).kernel_start,
    {
        self.processes.insert(process_id, image_file_name);
    }

    /// Correlates one stack fragment with the timeline: every event of the
    /// fragment's thread and timestamp in the scan window receives the
    /// fragment, following [`correlate_spec`]. Returns the diagnostics, or the
    /// error that stops the pass.
    pub fn process_stack_fragment(&mut self, fragment: &Fragment) -> (r: Result<
        Vec<Diagnostic>,
        CorrelationError,
    >)
        requires
            old(self).wf(),
        ensures
            final(self).wf(),
            final(self).processes@ == old(self).processes@,
            final(self).kernel_start == old(self).kernel_start,
            fragment.addresses@.len() == 0 ==> r == Err::<Vec<Diagnostic>, CorrelationError>(
                CorrelationError::EmptyFragment,
            ) && final(self).events@ == old(self).events@ && final(self).threads@
                == old(self).threads@,
            fragment.addresses@.len() > 0 ==> ({
                let tid = fragment.thread_id;
                let t0 = thread_before(old(self).threads@, tid, fragment.process_id);
                let st = CorrelationState {
                    events: timeline_view(old(self).events@),
                    pending: t0.pending,
                    diagnostics: Seq::empty(),
                };
                let (st2, res) = correlate_spec(
                    st,
                    fragment@,
                    old(self).ends_in_kernel(fragment.addresses@),
                );
                &&& timeline_view(final(self).events@) == st2.events
                &&& final(self).threads@.dom() == old(self).threads@.dom().insert(tid)
                &&& final(self).threads@[tid]@ == (ThreadModel {
                    process_id: t0.process_id,
                    pending: st2.pending,
                })
                &&& forall|t: u32|
                    t != tid && #[trigger] old(self).threads@.contains_key(t)
                        ==> final(self).threads@[t] == old(self).threads@[t]
                &&& match res {
                    Ok(()) => r is Ok && r->Ok_0@ == st2.diagnostics,
                    Err(x) => r == Err::<Vec<Diagnostic>, CorrelationError>(x),
                }
            }),
    {
        let n = fragment.addresses.len();
        if n == 0 {
            return Err(CorrelationError::EmptyFragment);
        }
        let ends_in_kernel = self.is_kernel(fragment.addresses[n - 1]);
        let tid = fragment.thread_id;
        let ghost threads0 = self.threads@;
        let ghost events0 = timeline_view(self.events@);
        let mut state = match self.threads.remove(&tid) {
            Some(s) => s,
            None => ThreadState::new(fragment.process_id),
        };
        assert(state@ == thread_before(threads0, tid, fragment.process_id));
        assert(pending_ok(events0, state@.pending));
        let mut diagnostics: Vec<Diagnostic> = Vec::new();
        let scanned = scan_fragment(
            &mut self.events,
            &mut state.events_with_unfinished_kernel_stacks,
            &mut diagnostics,
            fragment,
            ends_in_kernel,
        );
        self.threads.insert(tid, state);
        assert forall|t: u32| #[trigger] self.threads@.contains_key(t) implies pending_ok(
            timeline_view(self.events@),
            self.threads@[t]@.pending,
        ) by {
            if t != tid {
                let p = self.threads@[t]@.pending;
                let ev = timeline_view(self.events@);
                assert(threads0.contains_key(t));
                assert(pending_ok(events0, p));
                assert forall|k: int| 0 <= k < p.len() implies #[trigger] p[k] < ev.len()
                    && ev[p[k] as int].stack is Some by {
                    assert(p[k] < events0.len());
                    assert(events0[p[k] as int].stack is Some);
                }
            }
        }
        assert(self.threads@.dom() =~= threads0.dom().insert(tid));
        match scanned {
            Err(x) => Err(x),
            Ok(found) => {
                if found.is_none() {
                    diagnostics.push(
                        Diagnostic::NoMatchingEvent {
                            timestamp: fragment.timestamp,
                            thread_id: fragment.thread_id,
                            cpu: fragment.cpu,
                        },
                    );
                }
                Ok(diagnostics)
            },
        }
    }
}

} // verus!

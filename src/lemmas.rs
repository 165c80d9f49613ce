use vstd::prelude::*;

use crate::correlator::{
    correlate_spec, extended, merge_spec, pending_ok, scan_spec, CorrelationState, Diagnostic,
    FragmentModel,
};
use crate::session::StackCorrelator;

verus! {

/// Every index pending for a thread names a timeline event that already
/// carries a stack.
pub proof fn lemma_pending_events_have_stacks(c: &StackCorrelator, tid: u32, k: int)
    requires
        c.wf(),
        c.threads@.contains_key(tid),
        0 <= k < c.threads@[tid]@.pending.len(),
    ensures
        ({
            let j = c.threads@[tid]@.pending[k];
            &&& j < c.events@.len()
            &&& c.events@[j as int].stack is Some
        }),
{
    let p = c.threads@[tid]@.pending;
    assert(pending_ok(crate::timeline::timeline_view(c.events@), p));
    assert(p[k] < c.events@.len());
    assert(crate::timeline::timeline_view(c.events@)[p[k] as int] == c.events@[p[k] as int]@);
}

/// Two kernel-ending fragments merged into the same event leave it with the
/// concatenation of both, in arrival order, and the event pending once.
pub proof fn lemma_kernel_fragments_concatenate(
    st: CorrelationState,
    i: usize,
    first: Seq<u64>,
    second: Seq<u64>,
)
    requires
        i < st.events.len(),
        pending_ok(st.events, st.pending),
        st.events[i as int].stack is None,
    ensures
        merge_spec(st, i, first, true) is Ok,
        merge_spec(merge_spec(st, i, first, true)->Ok_0, i, second, true) is Ok,
        ({
            let s2 = merge_spec(merge_spec(st, i, first, true)->Ok_0, i, second, true)->Ok_0;
            &&& s2.events[i as int].stack == Some(first + second)
            &&& s2.pending == st.pending.push(i)
        }),
{
    let s1 = merge_spec(st, i, first, true)->Ok_0;
    assert(s1.pending.contains(i)) by {
        assert(s1.pending[s1.pending.len() - 1] == i);
    }
}

/// A user-mode fragment extends the stack of every pending event of its
/// thread, however many there are, and empties the pending list.
pub proof fn lemma_user_fragment_resolves_pending(
    st: CorrelationState,
    i: usize,
    frag: Seq<u64>,
)
    requires
        i < st.events.len(),
        pending_ok(st.events, st.pending),
        merge_spec(st, i, frag, false) is Ok,
    ensures
        ({
            let s2 = merge_spec(st, i, frag, false)->Ok_0;
            &&& s2.pending.len() == 0
            &&& forall|k: int|
                0 <= k < st.pending.len() ==> #[trigger] s2.events[st.pending[k] as int].stack
                    == Some(st.events[st.pending[k] as int].stack.unwrap() + frag)
        }),
{
    let s2 = merge_spec(st, i, frag, false)->Ok_0;
    assert forall|k: int| 0 <= k < st.pending.len() implies #[trigger] s2.events[st.pending[k] as int].stack
        == Some(st.events[st.pending[k] as int].stack.unwrap() + frag) by {
        let j = st.pending[k] as int;
        assert(j < st.events.len());
        assert(crate::correlator::lists(st.pending, j));
        assert(st.events[j].stack is Some);
        assert(extended(st.events[j].stack, frag) == st.events[j].stack.unwrap() + frag);
    }
}

/// When the newest pending event is older than the event a user-mode fragment
/// resolves, the pending event is flagged as having a bad stack.
pub proof fn lemma_stale_pending_flagged(st: CorrelationState, i: usize, frag: Seq<u64>)
    requires
        i < st.events.len(),
        pending_ok(st.events, st.pending),
        merge_spec(st, i, frag, false) is Ok,
        st.pending.len() > 0,
        st.events[st.pending.last() as int].timestamp < st.events[i as int].timestamp,
    ensures
        merge_spec(st, i, frag, false)->Ok_0.events[st.pending.last() as int].bad_stack,
{
    assert(st.pending[st.pending.len() - 1] < st.events.len());
}

/// Once a scan has a match, it keeps one.
proof fn lemma_found_kept(
    st: CorrelationState,
    f: FragmentModel,
    ends_in_kernel: bool,
    k: nat,
    x: usize,
)
    ensures
        scan_spec(st, f, ends_in_kernel, k, Some(x)).found is Some,
    decreases k,
{
    if k > 0 {
        let i = (k - 1) as int;
        let st1 = crate::correlator::note_ambiguity(st, f, Some(x), i as usize);
        if let Ok(st2) = merge_spec(st1, i as usize, f.addresses, ends_in_kernel) {
            lemma_found_kept(st2, f, ends_in_kernel, (k - 1) as nat, i as usize);
        }
        lemma_found_kept(st, f, ends_in_kernel, (k - 1) as nat, x);
    }
}

/// A scan that finds no match changes nothing.
proof fn lemma_unmatched_scan(st: CorrelationState, f: FragmentModel, ends_in_kernel: bool, k: nat)
    requires
        scan_spec(st, f, ends_in_kernel, k, None).found is None,
    ensures
        scan_spec(st, f, ends_in_kernel, k, None).state == st,
        scan_spec(st, f, ends_in_kernel, k, None).error is None,
    decreases k,
{
    if k > 0 {
        let i = (k - 1) as int;
        if let Ok(st2) = merge_spec(st, i as usize, f.addresses, ends_in_kernel) {
            lemma_found_kept(st2, f, ends_in_kernel, (k - 1) as nat, i as usize);
        }
        if !(st.events[i].timestamp < crate::correlator::signed(f.timestamp))
            && !crate::correlator::is_match(st.events[i], f) {
            lemma_unmatched_scan(st, f, ends_in_kernel, (k - 1) as nat);
        }
    }
}

/// A fragment that matches no event leaves the timeline and the pending list
/// as they were, and only adds a "no matching event" diagnostic.
pub proof fn lemma_no_match_no_mutation(st: CorrelationState, f: FragmentModel, ends_in_kernel: bool)
    requires
        scan_spec(st, f, ends_in_kernel, st.events.len(), None).found is None,
    ensures
        ({
            let (st2, res) = correlate_spec(st, f, ends_in_kernel);
            &&& res is Ok
            &&& st2.events == st.events
            &&& st2.pending == st.pending
            &&& st2.diagnostics == st.diagnostics.push(
                Diagnostic::NoMatchingEvent { timestamp: f.timestamp, thread_id: f.thread_id, cpu: f.cpu },
            )
        }),
{
    lemma_unmatched_scan(st, f, ends_in_kernel, st.events.len());
}

} // verus!

use vstd::prelude::*;

use crate::timeline::{Event, EventModel, timeline_view};

verus! {

/// A non-fatal finding reported while a stack fragment is correlated.
#[derive(Clone, Copy, Debug, PartialEq, Eq, Structural)]
pub enum Diagnostic {
    /// The fragment matched more than one event; `previous` is the match found
    /// before `current` in the same scan.
    AmbiguousMatch { previous: usize, current: usize, timestamp: u64, thread_id: u32, cpu: u16 },
    /// The kernel-only stack of event `index` never got its own user-mode
    /// continuation before a later event's user-mode fragment arrived.
    MissingUserStack { index: usize, pending_timestamp: i64, resolved_timestamp: i64 },
    /// No event of the fragment's thread and timestamp lies in the scan window.
    NoMatchingEvent { timestamp: u64, thread_id: u32, cpu: u16 },
}

/// Why a fragment could not be correlated.
#[derive(Clone, Copy, Debug, PartialEq, Eq, Structural)]
pub enum CorrelationError {
    /// Event `index` already carries a stack that is not registered as
    /// kernel-pending: the correlator's own bookkeeping is broken, and
    /// processing must stop.
    UnregisteredStack { index: usize },
    /// The fragment holds no address at all.
    EmptyFragment,
}

/// The state that one correlation step reads and writes: the timeline, the
/// pending list of the fragment's thread, and the diagnostics emitted so far.
pub struct CorrelationState {
    pub events: Seq<EventModel>,
    pub pending: Seq<usize>,
    pub diagnostics: Seq<Diagnostic>,
}

/// `s` with `frag` appended; an absent stack counts as empty.
pub open spec fn extended(s: Option<Seq<u64>>, frag: Seq<u64>) -> Seq<u64> {
    match s {
        Some(s) => s + frag,
        None => frag,
    }
}

pub open spec fn with_stack(e: EventModel, s: Seq<u64>) -> EventModel {
    EventModel {
        name: e.name,
        timestamp: e.timestamp,
        thread_id: e.thread_id,
        stack: Some(s),
        cpu: e.cpu,
        bad_stack: e.bad_stack,
    }
}

pub open spec fn flagged_bad(e: EventModel) -> EventModel {
    EventModel {
        name: e.name,
        timestamp: e.timestamp,
        thread_id: e.thread_id,
        stack: e.stack,
        cpu: e.cpu,
        bad_stack: true,
    }
}

/// Every pending index names a distinct timeline event that already has a stack.
pub open spec fn pending_ok(events: Seq<EventModel>, pending: Seq<usize>) -> bool {
    &&& pending.no_duplicates()
    &&& forall|k: int|
        0 <= k < pending.len() ==> #[trigger] pending[k] < events.len()
            && events[pending[k] as int].stack is Some
}

/// Whether timeline index `j` occurs in `pending`.
pub open spec fn lists(pending: Seq<usize>, j: int) -> bool {
    exists|w: int| 0 <= w < pending.len() && #[trigger] pending[w] as int == j
}

/// The timeline after a user-mode fragment has been appended to every pending stack.
pub open spec fn extend_pending(
    events: Seq<EventModel>,
    pending: Seq<usize>,
    frag: Seq<u64>,
) -> Seq<EventModel> {
    Seq::new(
        events.len(),
        |j: int|
            if lists(pending, j) {
                with_stack(events[j], extended(events[j].stack, frag))
            } else {
                events[j]
            },
    )
}

/// Merging fragment `frag` into matched event `i`.
pub open spec fn merge_spec(
    st: CorrelationState,
    i: usize,
    frag: Seq<u64>,
    ends_in_kernel: bool,
) -> Result<CorrelationState, CorrelationError> {
    let e = st.events[i as int];
    if e.stack is Some && !st.pending.contains(i) {
        Err(CorrelationError::UnregisteredStack { index: i })
    } else if ends_in_kernel {
        if e.stack is Some {
            Ok(
                CorrelationState {
                    events: st.events.update(i as int, with_stack(e, extended(e.stack, frag))),
                    pending: st.pending,
                    diagnostics: st.diagnostics,
                },
            )
        } else {
            Ok(
                CorrelationState {
                    events: st.events.update(i as int, with_stack(e, frag)),
                    pending: st.pending.push(i),
                    diagnostics: st.diagnostics,
                },
            )
        }
    } else {
        let ev1 = extend_pending(st.events, st.pending, frag);
        let ev2 = if e.stack is None {
            ev1.update(i as int, with_stack(e, frag))
        } else {
            ev1
        };
        if st.pending.len() > 0 && st.events[st.pending.last() as int].timestamp < e.timestamp {
            let last = st.pending.last();
            Ok(
                CorrelationState {
                    events: ev2.update(last as int, flagged_bad(ev2[last as int])),
                    pending: Seq::empty(),
                    diagnostics: st.diagnostics.push(
                        Diagnostic::MissingUserStack {
                            index: last,
                            pending_timestamp: st.events[last as int].timestamp,
                            resolved_timestamp: e.timestamp,
                        },
                    ),
                },
            )
        } else {
            Ok(CorrelationState { events: ev2, pending: Seq::empty(), diagnostics: st.diagnostics })
        }
    }
}

/// Whether `x` occurs in `v`.
pub fn contains_index(v: &Vec<usize>, x: usize) -> (r: bool)
    ensures
        r == v@.contains(x),
{
    let mut k: usize = 0;
    while k < v.len()
        invariant
            k <= v.len(),
            forall|j: int| 0 <= j < k ==> v@[j] != x,
        decreases v.len() - k,
    {
        if v[k] == x {
            return true;
        }
        k = k + 1;
    }
    false
}

/// Appends `frag` to the stack of event `i`, creating the stack if absent.
fn append_fragment(events: &mut Vec<Event>, i: usize, frag: &Vec<u64>)
    requires
        i < old(events).len(),
    ensures
        final(events)@.len() == old(events)@.len(),
        timeline_view(final(events)@) == timeline_view(old(events)@).update(
            i as int,
            with_stack(old(events)@[i as int]@, extended(old(events)@[i as int]@.stack, frag@)),
        ),
{
    let mut taken: Option<Vec<u64>> = None;
    std::mem::swap(&mut taken, &mut events[i].stack);
    let mut s: Vec<u64> = match taken {
        Some(s) => s,
        None => Vec::new(),
    };
    let ghost s0 = s@;
    let mut k: usize = 0;
    while k < frag.len()
        invariant
            k <= frag.len(),
            s@ == s0 + frag@.subrange(0, k as int),
        decreases frag.len() - k,
    {
        s.push(frag[k]);
        k = k + 1;
        assert(s@ =~= s0 + frag@.subrange(0, k as int));
    }
    assert(frag@.subrange(0, frag@.len() as int) =~= frag@);
    events[i].stack = Some(s);
    assert(timeline_view(events@) =~= timeline_view(old(events)@).update(
        i as int,
        with_stack(old(events)@[i as int]@, extended(old(events)@[i as int]@.stack, frag@)),
    ));
}


/// Merges fragment `frag` into matched event `i`, following [`merge_spec`].
/// On an error nothing is changed.
pub fn merge_fragment(
    events: &mut Vec<Event>,
    pending: &mut Vec<usize>,
    diagnostics: &mut Vec<Diagnostic>,
    i: usize,
    frag: &Vec<u64>,
    ends_in_kernel: bool,
) -> (r: Result<(), CorrelationError>)
    requires
        i < old(events).len(),
        pending_ok(timeline_view(old(events)@), old(pending)@),
    ensures
        ({
            let st = CorrelationState {
                events: timeline_view(old(events)@),
                pending: old(pending)@,
                diagnostics: old(diagnostics)@,
            };
            match merge_spec(st, i, frag@, ends_in_kernel) {
                Ok(s2) => {
                    &&& r is Ok
                    &&& timeline_view(final(events)@) == s2.events
                    &&& final(pending)@ == s2.pending
                    &&& final(diagnostics)@ == s2.diagnostics
                },
                Err(e) => {
                    &&& r == Err::<(), CorrelationError>(e)
                    &&& final(events)@ == old(events)@
                    &&& final(pending)@ == old(pending)@
                    &&& final(diagnostics)@ == old(diagnostics)@
                },
            }
        }),
{
    let ghost ev0 = timeline_view(events@);
    let has_stack = events[i].stack.is_some();
    let registered = contains_index(pending, i);
    if has_stack && !registered {
        return Err(CorrelationError::UnregisteredStack { index: i });
    }
    if ends_in_kernel {
        append_fragment(events, i, frag);
        if !has_stack {
            pending.push(i);
        }
        return Ok(());
    }
    let mut k: usize = 0;
    while k < pending.len()
        invariant
            k <= pending.len(),
            pending_ok(ev0, pending@),
            events@.len() == ev0.len(),
            timeline_view(events@) == extend_pending(ev0, pending@.subrange(0, k as int), frag@),
        decreases pending.len() - k,
    {
        let p = pending[k];
        assert(!lists(pending@.subrange(0, k as int), p as int)) by {
            if lists(pending@.subrange(0, k as int), p as int) {
                let w = choose|w: int| 0 <= w < k && #[trigger] pending@.subrange(0, k as int)[w] as int == p as int;
                assert(pending@[w] == pending@[k as int]);
            }
        }
        assert(p < ev0.len()) by {
            assert(pending_ok(ev0, pending@));
            assert(pending@[k as int] < ev0.len());
        }
        let ghost prev = timeline_view(events@);
        assert(prev[p as int] == ev0[p as int]);
        append_fragment(events, p, frag);
        k = k + 1;
        assert forall|j: int| 0 <= j < ev0.len() implies
            #[trigger] lists(pending@.subrange(0, k as int), j)
                == (lists(pending@.subrange(0, k - 1), j) || j == p as int) by {
            if lists(pending@.subrange(0, k as int), j) {
                let w = choose|w: int| 0 <= w < k && #[trigger] pending@.subrange(0, k as int)[w] as int == j;
                if w < k - 1 {
                    assert(pending@.subrange(0, k - 1)[w] as int == j);
                }
            }
            if lists(pending@.subrange(0, k - 1), j) {
                let w = choose|w: int| 0 <= w < k - 1 && #[trigger] pending@.subrange(0, k - 1)[w] as int == j;
                assert(pending@.subrange(0, k as int)[w] as int == j);
            }
            if j == p as int {
                assert(pending@.subrange(0, k as int)[k - 1] == p);
            }
        }
        let ghost next = extend_pending(ev0, pending@.subrange(0, k as int), frag@);
        assert forall|j: int| 0 <= j < ev0.len() implies #[trigger] timeline_view(events@)[j] == next[j] by {
            if j == p as int {
                assert(lists(pending@.subrange(0, k as int), j));
            } else {
                assert(timeline_view(events@)[j] == prev[j]);
            }
        }
        assert(timeline_view(events@) =~= next);
    }
    assert(pending@.subrange(0, pending@.len() as int) =~= pending@);
    if !has_stack {
        assert(!lists(pending@, i as int)) by {
            if lists(pending@, i as int) {
                let w = choose|w: int| 0 <= w < pending@.len() && #[trigger] pending@[w] as int == i as int;
                assert(ev0[pending@[w] as int].stack is Some);
            }
        }
        assert(ev0[i as int].stack is None);
        assert(timeline_view(events@)[i as int] == ev0[i as int]);
        append_fragment(events, i, frag);
    }
    let ghost ev1 = extend_pending(ev0, pending@, frag@);
    let ghost ev2 = timeline_view(events@);
    assert(ev2 == (if !has_stack { ev1.update(i as int, with_stack(ev0[i as int], frag@)) } else { ev1 }));
    assert(ev2[i as int].timestamp == ev0[i as int].timestamp);
    let n = pending.len();
    if n > 0 {
        let last = pending[n - 1];
        assert(pending@[n - 1] < ev0.len());
        assert(ev2[last as int].timestamp == ev0[last as int].timestamp);
        if events[last].timestamp < events[i].timestamp {
            let ghost before = timeline_view(events@);
            events[last].bad_stack = true;
            assert(timeline_view(events@) =~= before.update(last as int, flagged_bad(before[last as int])));
            diagnostics.push(
                Diagnostic::MissingUserStack {
                    index: last,
                    pending_timestamp: events[last].timestamp,
                    resolved_timestamp: events[i].timestamp,
                },
            );
        }
    }
    pending.clear();
    assert(pending@ =~= Seq::<usize>::empty());
    Ok(())
}


/// A stack fragment as delivered by the trace: the addresses of one stack walk,
/// leaf first, for `thread_id`'s sampling event at `timestamp`.
pub struct Fragment {
    pub thread_id: u32,
    pub process_id: u32,
    pub timestamp: u64,
    pub cpu: u16,
    pub addresses: Vec<u64>,
}

/// The mathematical value of a [`Fragment`].
pub struct FragmentModel {
    pub thread_id: u32,
    pub process_id: u32,
    pub timestamp: u64,
    pub cpu: u16,
    pub addresses: Seq<u64>,
}

impl View for Fragment {
    type V = FragmentModel;

    open spec fn view(&self) -> FragmentModel {
        FragmentModel {
            thread_id: self.thread_id,
            process_id: self.process_id,
            timestamp: self.timestamp,
            cpu: self.cpu,
            addresses: self.addresses@,
        }
    }
}

/// Where a backward scan stopped: the state reached, the newest match seen
/// last (the lowest index), and the fatal error that cut it short, if any.
pub struct ScanOutcome {
    pub state: CorrelationState,
    pub found: Option<usize>,
    pub error: Option<CorrelationError>,
}

/// The fragment's timestamp as the timeline's signed clock reads it.
pub open spec fn signed(t: u64) -> i64 {
    #[verifier::truncate] (t as i64)
}

/// Whether timeline entry `e` is the event that fragment `f` belongs to.
pub open spec fn is_match(e: EventModel, f: FragmentModel) -> bool {
    e.timestamp == signed(f.timestamp) && e.thread_id == f.thread_id
}

/// `st` with an ambiguity diagnostic added when an earlier match exists.
pub open spec fn note_ambiguity(
    st: CorrelationState,
    f: FragmentModel,
    found: Option<usize>,
    i: usize,
) -> CorrelationState {
    match found {
        Some(previous) => CorrelationState {
            events: st.events,
            pending: st.pending,
            diagnostics: st.diagnostics.push(
                Diagnostic::AmbiguousMatch {
                    previous,
                    current: i,
                    timestamp: f.timestamp,
                    thread_id: f.thread_id,
                    cpu: f.cpu,
                },
            ),
        },
        None => st,
    }
}

/// The backward scan over timeline indices `k - 1` down to `0`: it stops at the
/// first entry older than the fragment, skips newer entries and other threads,
/// and merges the fragment into every match.
pub open spec fn scan_spec(
    st: CorrelationState,
    f: FragmentModel,
    ends_in_kernel: bool,
    k: nat,
    found: Option<usize>,
) -> ScanOutcome
    decreases k,
{
    if k == 0 {
        ScanOutcome { state: st, found, error: None }
    } else {
        let i = (k - 1) as int;
        let e = st.events[i];
        if e.timestamp < signed(f.timestamp) {
            ScanOutcome { state: st, found, error: None }
        } else if is_match(e, f) {
            let st1 = note_ambiguity(st, f, found, i as usize);
            match merge_spec(st1, i as usize, f.addresses, ends_in_kernel) {
                Err(x) => ScanOutcome { state: st1, found: Some(i as usize), error: Some(x) },
                Ok(st2) => scan_spec(st2, f, ends_in_kernel, (k - 1) as nat, Some(i as usize)),
            }
        } else {
            scan_spec(st, f, ends_in_kernel, (k - 1) as nat, found)
        }
    }
}

/// One whole correlation step: the scan over the full timeline, then a
/// "no matching event" diagnostic where nothing matched.
pub open spec fn correlate_spec(
    st: CorrelationState,
    f: FragmentModel,
    ends_in_kernel: bool,
) -> (CorrelationState, Result<(), CorrelationError>) {
    let o = scan_spec(st, f, ends_in_kernel, st.events.len(), None);
    match o.error {
        Some(x) => (o.state, Err(x)),
        None => if o.found is None {
            (
                CorrelationState {
                    events: o.state.events,
                    pending: o.state.pending,
                    diagnostics: o.state.diagnostics.push(
                        Diagnostic::NoMatchingEvent {
                            timestamp: f.timestamp,
                            thread_id: f.thread_id,
                            cpu: f.cpu,
                        },
                    ),
                },
                Ok(()),
            )
        } else {
            (o.state, Ok(()))
        },
    }
}

/// Every stack present before stays present after.
pub open spec fn stacks_kept(before: Seq<EventModel>, after: Seq<EventModel>) -> bool {
    &&& after.len() == before.len()
    &&& forall|j: int|
        #![trigger after[j]]
        0 <= j < before.len() ==> (before[j].stack is Some ==> after[j].stack is Some)
            && after[j].timestamp == before[j].timestamp && after[j].thread_id == before[j].thread_id
}

pub proof fn lemma_stacks_kept_trans(a: Seq<EventModel>, b: Seq<EventModel>, c: Seq<EventModel>)
    requires
        stacks_kept(a, b),
        stacks_kept(b, c),
    ensures
        stacks_kept(a, c),
{
    assert forall|j: int| 0 <= j < a.len() implies (a[j].stack is Some ==> #[trigger] c[j].stack is Some)
        && c[j].timestamp == a[j].timestamp && c[j].thread_id == a[j].thread_id by {
        assert(b[j] == b[j]);
    }
}

/// A successful merge keeps the timeline's length, every existing stack and the
/// bookkeeping's well-formedness.
pub proof fn lemma_merge_preserves(
    st: CorrelationState,
    i: usize,
    frag: Seq<u64>,
    ends_in_kernel: bool,
)
    requires
        i < st.events.len(),
        pending_ok(st.events, st.pending),
        merge_spec(st, i, frag, ends_in_kernel) is Ok,
    ensures
        ({
            let s2 = merge_spec(st, i, frag, ends_in_kernel)->Ok_0;
            &&& stacks_kept(st.events, s2.events)
            &&& pending_ok(s2.events, s2.pending)
        }),
{
    let s2 = merge_spec(st, i, frag, ends_in_kernel)->Ok_0;
    let e = st.events[i as int];
    if ends_in_kernel && e.stack is None {
        assert(!st.pending.contains(i)) by {
            if st.pending.contains(i) {
                let w = choose|w: int| 0 <= w < st.pending.len() && #[trigger] st.pending[w] == i;
                assert(st.events[st.pending[w] as int].stack is Some);
            }
        }
        assert forall|a: int, b: int|
            0 <= a < s2.pending.len() && 0 <= b < s2.pending.len() && a != b implies
            #[trigger] s2.pending[a] != #[trigger] s2.pending[b] by {
            if a < st.pending.len() && b < st.pending.len() {
                assert(st.pending[a] != st.pending[b]);
            } else if a < st.pending.len() {
                assert(st.pending.contains(st.pending[a]));
            } else {
                assert(st.pending.contains(st.pending[b]));
            }
        }
        assert forall|k: int| 0 <= k < s2.pending.len() implies #[trigger] s2.pending[k]
            < s2.events.len() && s2.events[s2.pending[k] as int].stack is Some by {
            if k < st.pending.len() {
                assert(st.pending[k] < st.events.len());
            }
        }
    }
    if !ends_in_kernel {
        assert(s2.pending.len() == 0);
    }
}

/// Merges every scanned match; the result is the scan's outcome.
pub fn scan_fragment(
    events: &mut Vec<Event>,
    pending: &mut Vec<usize>,
    diagnostics: &mut Vec<Diagnostic>,
    fragment: &Fragment,
    ends_in_kernel: bool,
) -> (r: Result<Option<usize>, CorrelationError>)
    requires
        pending_ok(timeline_view(old(events)@), old(pending)@),
    ensures
        ({
            let st = CorrelationState {
                events: timeline_view(old(events)@),
                pending: old(pending)@,
                diagnostics: old(diagnostics)@,
            };
            let o = scan_spec(st, fragment@, ends_in_kernel, old(events)@.len() as nat, None);
            &&& timeline_view(final(events)@) == o.state.events
            &&& final(pending)@ == o.state.pending
            &&& final(diagnostics)@ == o.state.diagnostics
            &&& r == match o.error {
                Some(x) => Err(x),
                None => Ok(o.found),
            }
            &&& stacks_kept(timeline_view(old(events)@), o.state.events)
            &&& pending_ok(o.state.events, o.state.pending)
        }),
{
    let ghost st0 = CorrelationState {
        events: timeline_view(events@),
        pending: pending@,
        diagnostics: diagnostics@,
    };
    let ghost target = scan_spec(st0, fragment@, ends_in_kernel, events@.len() as nat, None);
    let ts = #[verifier::truncate] (fragment.timestamp as i64);
    let mut k: usize = events.len();
    let mut found: Option<usize> = None;
    while k > 0
        invariant
            k <= events@.len(),
            events@.len() == st0.events.len(),
            pending_ok(timeline_view(events@), pending@),
            stacks_kept(st0.events, timeline_view(events@)),
            ts == signed(fragment.timestamp),
            st0 == (CorrelationState {
                events: timeline_view(old(events)@),
                pending: old(pending)@,
                diagnostics: old(diagnostics)@,
            }),
            target == scan_spec(
                CorrelationState {
                    events: timeline_view(old(events)@),
                    pending: old(pending)@,
                    diagnostics: old(diagnostics)@,
                },
                fragment@,
                ends_in_kernel,
                old(events)@.len() as nat,
                None,
            ),
            target == scan_spec(
                CorrelationState {
                    events: timeline_view(events@),
                    pending: pending@,
                    diagnostics: diagnostics@,
                },
                fragment@,
                ends_in_kernel,
                k as nat,
                found,
            ),
        ensures
            events@.len() == st0.events.len(),
            pending_ok(timeline_view(events@), pending@),
            stacks_kept(st0.events, timeline_view(events@)),
            target.state == (CorrelationState {
                events: timeline_view(events@),
                pending: pending@,
                diagnostics: diagnostics@,
            }),
            target.error is None,
            target.found == found,
        decreases k,
    {
        let i = k - 1;
        let ghost cur = CorrelationState {
            events: timeline_view(events@),
            pending: pending@,
            diagnostics: diagnostics@,
        };
        assert(timeline_view(events@)[i as int] == events@[i as int]@);
        if events[i].timestamp < ts {
            break;
        }
        if events[i].timestamp == ts && events[i].thread_id == fragment.thread_id {
            if let Some(previous) = found {
                diagnostics.push(
                    Diagnostic::AmbiguousMatch {
                        previous,
                        current: i,
                        timestamp: fragment.timestamp,
                        thread_id: fragment.thread_id,
                        cpu: fragment.cpu,
                    },
                );
            }
            let ghost st1 = CorrelationState {
                events: timeline_view(events@),
                pending: pending@,
                diagnostics: diagnostics@,
            };
            assert(st1 == note_ambiguity(cur, fragment@, found, i));
            assert(st1.events == cur.events && st1.pending == cur.pending);
            let merged = merge_fragment(
                events,
                pending,
                diagnostics,
                i,
                &fragment.addresses,
                ends_in_kernel,
            );
            match merged {
                Err(x) => {
                    assert(target == ScanOutcome { state: st1, found: Some(i), error: Some(x) });
                    return Err(x);
                },
                Ok(()) => {
                    proof {
                        lemma_merge_preserves(st1, i, fragment@.addresses, ends_in_kernel);
                        lemma_stacks_kept_trans(st0.events, st1.events, timeline_view(events@));
                    }
                },
            }
            found = Some(i);
        }
        k = i;
    }
    Ok(found)
}

} // verus!

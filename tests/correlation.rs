use etw_reader::correlator::{CorrelationError, Diagnostic, Fragment};
use etw_reader::identity::RecordKind;
use etw_reader::session::StackCorrelator;

const K1: u64 = 0xFFFF_0000_0000_0001;
const K2: u64 = 0xFFFF_0000_0000_0002;

fn fragment(thread_id: u32, timestamp: u64, addresses: Vec<u64>) -> Fragment {
    Fragment { thread_id, process_id: 1, timestamp, cpu: 3, addresses }
}

fn pending(c: &StackCorrelator, tid: u32) -> Vec<usize> {
    c.threads.get(&tid).unwrap().events_with_unfinished_kernel_stacks.clone()
}

fn two_kernel_fragments() -> StackCorrelator {
    let mut c = StackCorrelator::new(8);
    let sample = c.push_event("SampleProf".to_string(), 100, 5, 0);
    assert_eq!(sample, 0);
    let d = c.process_stack_fragment(&fragment(5, 100, vec![K1])).unwrap();
    assert!(d.is_empty());
    c.push_event("Stack".to_string(), 101, 5, 0);
    let d = c.process_stack_fragment(&fragment(5, 100, vec![K2])).unwrap();
    assert!(d.is_empty());
    c.push_event("Stack".to_string(), 101, 5, 0);
    c
}

#[test]
fn user_fragment_attaches_to_matching_event() {
    let mut c = StackCorrelator::new(8);
    c.push_event("SampleProf".to_string(), 100, 5, 0);
    let d = c.process_stack_fragment(&fragment(5, 100, vec![0x1000, 0x2000])).unwrap();
    assert!(d.is_empty());
    assert_eq!(c.events[0].stack, Some(vec![0x1000, 0x2000]));
    assert!(!c.events[0].bad_stack);
    assert!(pending(&c, 5).is_empty());
}

#[test]
fn kernel_fragments_are_concatenated() {
    let c = two_kernel_fragments();
    assert_eq!(c.events[0].stack, Some(vec![K1, K2]));
    assert_eq!(pending(&c, 5), vec![0]);
}

#[test]
fn user_fragment_completes_kernel_stack_of_same_timestamp() {
    let mut c = two_kernel_fragments();
    let later = c.push_event("SampleProf".to_string(), 100, 5, 1);
    assert_eq!(later, 3);
    let r = c.process_stack_fragment(&fragment(5, 100, vec![0x1000]));
    assert_eq!(c.events[0].stack, Some(vec![K1, K2, 0x1000]));
    assert_eq!(c.events[later].stack, Some(vec![0x1000]));
    assert!(!c.events[0].bad_stack);
    assert!(!c.events[later].bad_stack);
    assert!(pending(&c, 5).is_empty());
    // The older event also lies in the scan window; its stack is no longer
    // registered as pending, which stops the pass.
    assert_eq!(r, Err(CorrelationError::UnregisteredStack { index: 0 }));
}

#[test]
fn unmatched_fragment_changes_nothing() {
    let mut c = StackCorrelator::new(8);
    c.push_event("SampleProf".to_string(), 50, 8, 0);
    c.push_event("SampleProf".to_string(), 60, 9, 0);
    let d = c.process_stack_fragment(&fragment(9, 50, vec![0x1000])).unwrap();
    assert_eq!(d, vec![Diagnostic::NoMatchingEvent { timestamp: 50, thread_id: 9, cpu: 3 }]);
    assert!(c.events.iter().all(|e| e.stack.is_none() && !e.bad_stack));
    assert!(pending(&c, 9).is_empty());
}

#[test]
fn stale_kernel_stack_is_flagged() {
    let mut c = StackCorrelator::new(8);
    let a = c.push_event("SampleProf".to_string(), 100, 5, 0);
    c.process_stack_fragment(&fragment(5, 100, vec![K1])).unwrap();
    let b = c.push_event("SampleProf".to_string(), 200, 5, 0);
    let d = c.process_stack_fragment(&fragment(5, 200, vec![0x1000])).unwrap();
    assert_eq!(
        d,
        vec![Diagnostic::MissingUserStack { index: a, pending_timestamp: 100, resolved_timestamp: 200 }]
    );
    assert!(c.events[a].bad_stack);
    assert!(!c.events[b].bad_stack);
    assert_eq!(c.events[a].stack, Some(vec![K1, 0x1000]));
    assert_eq!(c.events[b].stack, Some(vec![0x1000]));
}

#[test]
fn user_fragment_extends_every_pending_stack() {
    let mut c = StackCorrelator::new(8);
    let a = c.push_event("SampleProf".to_string(), 100, 5, 0);
    c.process_stack_fragment(&fragment(5, 100, vec![K1])).unwrap();
    let b = c.push_event("SampleProf".to_string(), 150, 5, 0);
    c.process_stack_fragment(&fragment(5, 150, vec![K2])).unwrap();
    assert_eq!(pending(&c, 5), vec![a, b]);
    let e = c.push_event("SampleProf".to_string(), 200, 5, 0);
    c.process_stack_fragment(&fragment(5, 200, vec![0x1000, 0x2000])).unwrap();
    assert_eq!(c.events[a].stack, Some(vec![K1, 0x1000, 0x2000]));
    assert_eq!(c.events[b].stack, Some(vec![K2, 0x1000, 0x2000]));
    assert_eq!(c.events[e].stack, Some(vec![0x1000, 0x2000]));
    assert!(!c.events[a].bad_stack);
    assert!(c.events[b].bad_stack);
    assert!(pending(&c, 5).is_empty());
}

#[test]
fn pending_events_always_have_stacks() {
    let mut c = StackCorrelator::new(8);
    c.push_event("SampleProf".to_string(), 10, 1, 0);
    c.push_event("SampleProf".to_string(), 10, 2, 0);
    c.process_stack_fragment(&fragment(1, 10, vec![K1])).unwrap();
    c.process_stack_fragment(&fragment(2, 10, vec![0x10, K2])).unwrap();
    for tid in [1u32, 2] {
        for i in pending(&c, tid) {
            assert!(c.events[i].stack.is_some());
        }
    }
}

#[test]
fn second_match_is_reported_as_ambiguous() {
    let mut c = StackCorrelator::new(8);
    c.push_event("SampleProf".to_string(), 100, 5, 0);
    c.push_event("CSwitch".to_string(), 100, 5, 1);
    let d = c.process_stack_fragment(&fragment(5, 100, vec![K1])).unwrap();
    assert_eq!(
        d,
        vec![Diagnostic::AmbiguousMatch { previous: 1, current: 0, timestamp: 100, thread_id: 5, cpu: 3 }]
    );
    assert_eq!(c.events[0].stack, Some(vec![K1]));
    assert_eq!(c.events[1].stack, Some(vec![K1]));
    assert_eq!(pending(&c, 5), vec![1, 0]);
}

#[test]
fn newer_events_are_skipped_and_older_ones_end_the_scan() {
    let mut c = StackCorrelator::new(8);
    c.push_event("SampleProf".to_string(), 100, 5, 0);
    c.push_event("SampleProf".to_string(), 110, 5, 0);
    c.push_event("Other".to_string(), 120, 5, 0);
    c.process_stack_fragment(&fragment(5, 110, vec![0x2000])).unwrap();
    assert_eq!(c.events[0].stack, None);
    assert_eq!(c.events[1].stack, Some(vec![0x2000]));
    assert_eq!(c.events[2].stack, None);
    c.process_stack_fragment(&fragment(5, 100, vec![0x1000])).unwrap();
    assert_eq!(c.events[0].stack, Some(vec![0x1000]));
    assert_eq!(c.events[1].stack, Some(vec![0x2000]));
    assert_eq!(c.events[2].stack, None);
}

#[test]
fn unregistered_stack_is_fatal() {
    let mut c = StackCorrelator::new(8);
    c.push_event("SampleProf".to_string(), 100, 5, 0);
    c.process_stack_fragment(&fragment(5, 100, vec![0x1000])).unwrap();
    let r = c.process_stack_fragment(&fragment(5, 100, vec![K1]));
    assert_eq!(r, Err(CorrelationError::UnregisteredStack { index: 0 }));
    assert_eq!(c.events[0].stack, Some(vec![0x1000]));
}

#[test]
fn empty_fragment_is_refused() {
    let mut c = StackCorrelator::new(8);
    c.push_event("SampleProf".to_string(), 100, 5, 0);
    let r = c.process_stack_fragment(&fragment(5, 100, vec![]));
    assert_eq!(r, Err(CorrelationError::EmptyFragment));
    assert!(c.events[0].stack.is_none());
    assert!(c.threads.is_empty());
}

#[test]
fn thread_state_keeps_first_process() {
    let mut c = StackCorrelator::new(8);
    c.push_event("SampleProf".to_string(), 100, 5, 0);
    c.process_stack_fragment(&fragment(5, 100, vec![K1])).unwrap();
    let mut other = fragment(5, 100, vec![K2]);
    other.process_id = 42;
    c.process_stack_fragment(&other).unwrap();
    assert_eq!(c.threads.get(&5).unwrap().process_id, 1);
}

#[test]
fn thirty_two_bit_trace_uses_lower_boundary() {
    let mut c = StackCorrelator::new(4);
    c.push_event("SampleProf".to_string(), 7, 5, 0);
    c.process_stack_fragment(&fragment(5, 7, vec![0x8000_0000])).unwrap();
    assert_eq!(pending(&c, 5), vec![0]);
}

#[test]
fn process_names_last_write_wins() {
    let mut c = StackCorrelator::new(8);
    c.record_process(7, "a.exe".to_string());
    c.record_process(7, "b.exe".to_string());
    assert_eq!(c.processes.get(&7).map(|s| s.as_str()), Some("b.exe"));
    assert_eq!(c.processes.len(), 1);
}

#[test]
fn records_are_attributed_to_effective_thread() {
    let mut c = StackCorrelator::new(8);
    let s = c.record_event(RecordKind::Sample, "SampleProf".to_string(), 100, 1, 5, 0);
    let o = c.record_event(RecordKind::Other, "DiskIo".to_string(), 100, 1, 5, 0);
    assert_eq!(c.events[s].thread_id, 5);
    assert_eq!(c.events[o].thread_id, 1);
    c.process_stack_fragment(&fragment(5, 100, vec![K1])).unwrap();
    assert_eq!(c.events[s].stack, Some(vec![K1]));
    assert_eq!(c.events[o].stack, None);
    assert_eq!(c.unfinished_kernel_stacks(5), vec![s]);
    assert!(c.unfinished_kernel_stacks(1).is_empty());
}

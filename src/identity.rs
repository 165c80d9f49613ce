use vstd::prelude::*;

verus! {

/// The kinds of trace record that the processing pass treats specially.
#[derive(Clone, Copy, Debug, PartialEq, Eq, Structural)]
pub enum RecordKind {
    StackWalk,
    Sample,
    ContextSwitch,
    ProcessStart,
    ProcessRundownStart,
    ProcessRundownEnd,
    Other,
}

/// Whether records of `kind` carry the thread they are about in their payload.
pub open spec fn carries_thread(kind: RecordKind) -> bool {
    kind is Sample || kind is ContextSwitch
}

/// Whether records of `kind` name a process's image.
pub open spec fn names_image(kind: RecordKind) -> bool {
    kind is ProcessStart || kind is ProcessRundownStart || kind is ProcessRundownEnd
}

/// The thread a record is attributed to: for samples and context switches the
/// one in the payload, otherwise the record's own.
pub fn effective_thread_id(kind: RecordKind, native_thread_id: u32, payload_thread_id: u32) -> (r:
    u32)
    ensures
        r == if carries_thread(kind) {
            payload_thread_id
        } else {
            native_thread_id
        },
{
    match kind {
        RecordKind::Sample | RecordKind::ContextSwitch => payload_thread_id,
        _ => native_thread_id,
    }
}

/// Whether a record of `kind` updates the process-id to image-name mapping.
pub fn names_process_image(kind: RecordKind) -> (r: bool)
    ensures
        r == names_image(kind),
{
    match kind {
        RecordKind::ProcessStart | RecordKind::ProcessRundownStart
        | RecordKind::ProcessRundownEnd => true,
        _ => false,
    }
}

} // verus!

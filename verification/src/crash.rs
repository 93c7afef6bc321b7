//! What the crash handler does with an exception: benign debugger and runtime
//! notifications are passed on silently, other exceptions get a one-line note,
//! and access violations get the full register and machine dump. Also the
//! addresses the machine dump reads.

use vstd::prelude::*;

verus! {

/// The MSVC thread-naming exception.
pub const SET_THREAD_NAME: u32 = 0x406d1388;
/// `DBG_PRINTEXCEPTION_WIDE_C`.
pub const PRINT_WIDE: u32 = 0x4001000a;
/// `DBG_PRINTEXCEPTION_C`.
pub const PRINT: u32 = 0x40010006;
/// `STATUS_ACCESS_VIOLATION`.
pub const ACCESS_VIOLATION: u32 = 0xc0000005;
/// How many transitions of the current state the dump prints at most.
pub const DUMPED_TRANSITIONS: u64 = 4;

/// How the handler treats one exception code.
#[derive(Clone, Copy, Debug, PartialEq, Eq, Structural)]
pub enum ExceptionKind {
    /// Passed on without a word.
    Benign,
    /// Logged with its code and address only.
    Other,
    /// Logged with registers, stack and the machine around it.
    AccessViolation,
}

pub open spec fn spec_classify(code: u32) -> ExceptionKind {
    if code == SET_THREAD_NAME || code == PRINT_WIDE || code == PRINT {
        ExceptionKind::Benign
    } else if code == ACCESS_VIOLATION {
        ExceptionKind::AccessViolation
    } else {
        ExceptionKind::Other
    }
}

/// Classifies an exception code.
pub fn classify_exception(code: u32) -> (k: ExceptionKind)
    ensures
        k == spec_classify(code),
{
    if code == SET_THREAD_NAME || code == PRINT_WIDE || code == PRINT {
        ExceptionKind::Benign
    } else if code == ACCESS_VIOLATION {
        ExceptionKind::AccessViolation
    } else {
        ExceptionKind::Other
    }
}

/// Whether the handler writes the access's operation and target: only when the
/// record carries at least two parameters.
pub fn reports_access(params: u32) -> (r: bool)
    ensures
        r == (params >= 2),
{
    params >= 2
}

/// The number of transitions the dump reads from a state holding `len`.
pub fn dumped_transitions(len: u64) -> (n: u64)
    ensures
        n == if len < DUMPED_TRANSITIONS { len } else { DUMPED_TRANSITIONS },
        n <= DUMPED_TRANSITIONS,
{
    if len < DUMPED_TRANSITIONS { len } else { DUMPED_TRANSITIONS }
}

/// The addresses read from one transition record at `t`: its target, the
/// sub-transition array and length, the evaluator array and length. `None`
/// when a read would run past the end of the address space.
pub fn transition_fields(t: u64) -> (r: Option<(u64, u64, u64, u64, u64)>)
    ensures
        t + 0x30 <= u64::MAX ==> r == Some((t, (t + 0x18) as u64, (t + 0x20) as u64, (t + 0x28) as u64, (t + 0x30) as u64)),
        t + 0x30 > u64::MAX ==> r.is_none(),
{
    if t <= u64::MAX - 0x30 {
        Some((t, t + 0x18, t + 0x20, t + 0x28, t + 0x30))
    } else {
        None
    }
}

} // verus!

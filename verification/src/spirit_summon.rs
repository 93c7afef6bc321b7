//! Spirit ashes usable anywhere: the Rebirth-Monument gate of a fresh summon
//! (a two-byte `jz`) and the per-frame out-of-range "retire all summons" call
//! (a five-byte `call`) are overwritten with NOPs. Each site is patched only
//! when its live bytes still hold the expected opcode; a site already NOP'd is
//! left alone, and any other bytes are refused.

use vstd::prelude::*;

verus! {

/// Offset of the gating `jz` from where its byte pattern matched.
pub const GATE_JZ_OFF: u64 = 0x3f;

/// Offset of the `call DespawnAll` from the despawn pattern's match.
pub const DESPAWN_ALL_CALL: u64 = 0x23;

/// The `NOP` opcode.
pub const NOP: u8 = 0x90;

/// What to do with a code site.
#[derive(Clone, Copy, Debug, PartialEq, Eq, Structural)]
pub enum SiteAction {
    /// The site already holds NOPs.
    AlreadyPatched,
    /// The site holds the expected opcode: overwrite it with NOPs.
    Patch,
    /// The site holds something else: leave it.
    Mismatch,
}

/// The decision for the two-byte gate: NOP NOP is done, a `jz` (`74 ??`) is
/// patched, anything else is refused.
pub open spec fn spec_gate_action(live: Seq<u8>) -> SiteAction {
    if live[0] == NOP && live[1] == NOP {
        SiteAction::AlreadyPatched
    } else if live[0] == 0x74 {
        SiteAction::Patch
    } else {
        SiteAction::Mismatch
    }
}

/// Decides what to do with the two live bytes at the monument check.
pub fn gate_action(live: &[u8]) -> (r: SiteAction)
    requires
        live@.len() == 2,
    ensures
        r == spec_gate_action(live@),
{
    if live[0] == NOP && live[1] == NOP {
        SiteAction::AlreadyPatched
    } else if live[0] == 0x74 {
        SiteAction::Patch
    } else {
        SiteAction::Mismatch
    }
}

/// The decision for the five-byte call: five NOPs is done, a `call`
/// (`E8 ...`) is patched, anything else is refused.
pub open spec fn spec_call_action(live: Seq<u8>) -> SiteAction {
    if forall|i: int| 0 <= i < 5 ==> live[i] == NOP {
        SiteAction::AlreadyPatched
    } else if live[0] == 0xE8 {
        SiteAction::Patch
    } else {
        SiteAction::Mismatch
    }
}

/// Decides what to do with the despawn call's live bytes.
pub fn call_action(live: &[u8]) -> (r: SiteAction)
    requires
        live@.len() == 5,
    ensures
        r == spec_call_action(live@),
{
    let mut all_nop = true;
    for i in 0..5
        invariant
            live@.len() == 5,
            all_nop == forall|j: int| 0 <= j < i ==> live@[j] == NOP,
    {
        if live[i] != NOP {
            all_nop = false;
        }
    }
    if all_nop {
        SiteAction::AlreadyPatched
    } else if live[0] == 0xE8 {
        SiteAction::Patch
    } else {
        SiteAction::Mismatch
    }
}

/// The bytes written over a site of `len` bytes: `len` NOPs.
pub fn nops(len: usize) -> (r: Vec<u8>)
    ensures
        r@.len() == len,
        forall|i: int| 0 <= i < len ==> r@[i] == NOP,
{
    let mut v: Vec<u8> = Vec::new();
    for i in 0..len
        invariant
            v@.len() == i,
            forall|j: int| 0 <= j < i ==> v@[j] == NOP,
    {
        v.push(NOP);
    }
    v
}

/// Address of the gating `jz` for a gate match at `gate`.
pub fn gate_jz_addr(gate: u64) -> (r: u64)
    requires
        gate + GATE_JZ_OFF <= u64::MAX,
    ensures
        r == gate + GATE_JZ_OFF,
{
    gate + GATE_JZ_OFF
}

/// Address of the despawn call for a despawn match at `m`.
pub fn despawn_call_addr(m: u64) -> (r: u64)
    requires
        m + DESPAWN_ALL_CALL <= u64::MAX,
    ensures
        r == m + DESPAWN_ALL_CALL,
{
    m + DESPAWN_ALL_CALL
}

/// Whether the installer goes on to the despawn site after the monument
/// check: not when that check had to be patched and the write failed.
pub fn continue_after_gate(action: SiteAction, patched: bool) -> (r: bool)
    ensures
        r == !(action == SiteAction::Patch && !patched),
{
    !(action == SiteAction::Patch && !patched)
}

/// The bytes a site holds after the installer acted on it: NOPs where it
/// patched, the live bytes otherwise.
pub open spec fn after_install(live: Seq<u8>, action: SiteAction) -> Seq<u8> {
    if action == SiteAction::Patch {
        Seq::new(live.len(), |i: int| NOP)
    } else {
        live
    }
}

/// A second install writes nothing: whatever a site held, once the installer
/// has acted on it the decision for its new bytes is never another patch
/// (a patched site reads back as already patched).
pub proof fn law_second_install_writes_nothing(gate: Seq<u8>, call: Seq<u8>)
    requires
        gate.len() == 2,
        call.len() == 5,
    ensures
        spec_gate_action(after_install(gate, spec_gate_action(gate))) != SiteAction::Patch,
        spec_call_action(after_install(call, spec_call_action(call))) != SiteAction::Patch,
        spec_gate_action(gate) == SiteAction::Patch ==> spec_gate_action(after_install(gate, spec_gate_action(gate)))
            == SiteAction::AlreadyPatched,
        spec_call_action(call) == SiteAction::Patch ==> spec_call_action(after_install(call, spec_call_action(call)))
            == SiteAction::AlreadyPatched,
{
    let g2 = after_install(gate, spec_gate_action(gate));
    let c2 = after_install(call, spec_call_action(call));
    if spec_call_action(call) == SiteAction::Patch {
        assert(forall|i: int| 0 <= i < 5 ==> c2[i] == NOP);
    }
    if spec_gate_action(gate) == SiteAction::Patch {
        assert(g2[0] == NOP && g2[1] == NOP);
    }
}

} // verus!

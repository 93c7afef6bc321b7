//! The heavy-door message hook at the bank-2007 event dispatch: where it is
//! installed, and the rewrite of `DisplayGenericDialog` with the heavy-door
//! message into `DisplayBlinkingMessage`.

use vstd::prelude::*;

verus! {

/// The heavy door's "too heavy" message id.
pub const HEAVY_DOOR_MESSAGE_ID: i32 = 4200;
/// The hook sits this far past the dispatch signature (after `dec ecx`).
pub const DISPATCH_HOOK_OFFSET: u64 = 12;

/// Where to install the dispatch hook, given where the dispatch signature
/// matched (`None` when it was not found).
pub fn install(match_va: Option<u64>) -> (r: Option<u64>)
    requires
        match_va matches Some(v) ==> v + DISPATCH_HOOK_OFFSET <= u64::MAX,
    ensures
        r == match match_va {
            Some(v) => Some((v + DISPATCH_HOOK_OFFSET) as u64),
            None => None::<u64>,
        },
{
    match match_va {
        Some(v) => Some(v + DISPATCH_HOOK_OFFSET),
        None => None,
    }
}

/// Only `DisplayGenericDialog` (internal id 0: the command id minus one) is
/// examined.
pub fn is_generic_dialog(internal_id: u32) -> (r: bool)
    ensures
        r == (internal_id == 0),
{
    internal_id == 0
}

/// The event-argument pointer: the cached one, or the computed one when the
/// cache is empty.
pub fn args_pointer(cached: u64, computed: u64) -> (r: u64)
    ensures
        r == if cached != 0 { cached } else { computed },
{
    if cached != 0 {
        cached
    } else {
        computed
    }
}

/// The internal command id to run instead, for a generic dialog showing
/// `message_id`: `DisplayBlinkingMessage` (internal id 3) for the heavy-door
/// message, no change otherwise.
pub fn redirect_for(message_id: i32) -> (r: Option<u64>)
    ensures
        r == if message_id == HEAVY_DOOR_MESSAGE_ID { Some(3u64) } else { None },
{
    if message_id == HEAVY_DOOR_MESSAGE_ID {
        Some(3)
    } else {
        None
    }
}

/// The dispatch decision: the register value `rcx` to run instead, given the
/// one seen (its low 32 bits are the internal command id), the cached and
/// computed event-argument pointers, and the message at the pointer used.
/// Only a generic dialog with a non-null argument pointer showing the
/// heavy-door message is redirected, to `DisplayBlinkingMessage`.
pub fn dispatch_redirect(rcx: u64, cached: u64, computed: u64, message_id: i32) -> (r: Option<u64>)
    ensures
        r == if (rcx as u32) == 0 && (if cached != 0 { cached } else { computed }) != 0 && message_id
            == HEAVY_DOOR_MESSAGE_ID {
            Some(3u64)
        } else {
            None
        },
{
    if !is_generic_dialog(rcx as u32) {
        return None;
    }
    if args_pointer(cached, computed) == 0 {
        return None;
    }
    redirect_for(message_id)
}

} // verus!

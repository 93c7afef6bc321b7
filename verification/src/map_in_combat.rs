//! Map in combat: the two code patches that let the map open during combat
//! and keep it from closing when combat starts.

use vstd::prelude::*;
use vstd::slice::slice_to_vec;

verus! {

/// `jmp` in place of the map-open guard's `je`.
pub const OPEN_MAP_GUARD_PATCH: [u8; 1] = [0xEB];
/// `xor eax, eax; nop; nop` in place of the close-map call.
pub const CLOSE_MAP_PATCH: [u8; 5] = [0x48, 0x31, 0xC0, 0x90, 0x90];

/// One code patch: where, and the bytes written there.
pub struct CodePatch {
    pub addr: u64,
    pub bytes: Vec<u8>,
}

/// The patches, in the order they are written: the guard first, then the
/// close-map call. Both signatures must have been found.
pub fn install(guard: Option<u64>, close_map: Option<u64>) -> (r: Vec<CodePatch>)
    requires
        guard is Some,
        close_map is Some,
    ensures
        r@.len() == 2,
        r@[0].addr == guard->0,
        r@[0].bytes@ == OPEN_MAP_GUARD_PATCH@,
        r@[1].addr == close_map->0,
        r@[1].bytes@ == CLOSE_MAP_PATCH@,
{
    let g = match guard {
        Some(g) => g,
        None => 0,
    };
    let c = match close_map {
        Some(c) => c,
        None => 0,
    };
    let mut out: Vec<CodePatch> = Vec::new();
    out.push(CodePatch { addr: g, bytes: slice_to_vec(&OPEN_MAP_GUARD_PATCH) });
    out.push(CodePatch { addr: c, bytes: slice_to_vec(&CLOSE_MAP_PATCH) });
    out
}

} // verus!

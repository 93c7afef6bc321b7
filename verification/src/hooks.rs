//! The byte-level side of inline hooks: decoding a jump another hook already
//! placed at a function entry, the relocated-prologue trampoline, the
//! absolute-jump stub and the 5-byte `E9` entry patch.

use vstd::prelude::*;
use crate::bytes::{i32_from_le, i32_le, le8, u64_to_le, i32_to_le, i32_from_le_bytes, lemma_i32_bits_roundtrip};
use crate::text::push_all_bytes;

verus! {

/// `x` reduced into the range of `u64` (two's complement wrap-around).
pub open spec fn wrap64(x: int) -> int {
    x % 0x1_0000_0000_0000_0000
}

fn wrap_u64(x: i128) -> (r: u64)
    requires
        -0x1_0000_0000_0000_0000 <= x < 2 * 0x1_0000_0000_0000_0000,
    ensures
        r == wrap64(x as int),
{
    if x < 0 {
        (x + 0x1_0000_0000_0000_0000) as u64
    } else if x >= 0x1_0000_0000_0000_0000 {
        (x - 0x1_0000_0000_0000_0000) as u64
    } else {
        x as u64
    }
}

/// Where an entry's existing jump leads: straight to a target (`E9 rel32`),
/// or through the 8-byte cell an indirect `FF 25 disp32` jump reads.
#[derive(Clone, Copy, Debug, PartialEq, Eq, Structural)]
pub enum HookJump {
    Direct(u64),
    Indirect(u64),
}

/// The jump at a function entry whose first bytes are `bytes`.
pub open spec fn spec_existing_hook_target(entry: u64, bytes: Seq<u8>) -> Option<HookJump> {
    if bytes[0] == 0xE9 {
        Some(HookJump::Direct(wrap64(entry + 5 + i32_from_le(bytes.subrange(1, 5))) as u64))
    } else if bytes[0] == 0xFF && bytes.len() >= 2 && bytes[1] == 0x25 {
        Some(HookJump::Indirect(wrap64(entry + 6 + i32_from_le(bytes.subrange(2, 6))) as u64))
    } else {
        None
    }
}

/// Decodes the destination of a hook already installed at `entry` (whose
/// first bytes are `bytes`), so a new hook can chain behind it rather than
/// clobber it: a 5-byte `E9 rel32` relative jump gives its target; a 6-byte
/// `FF 25 disp32` indirect jump gives the address of the cell holding the
/// destination; anything else is no known hook.
pub fn existing_hook_target(entry: u64, bytes: &[u8]) -> (r: Option<HookJump>)
    requires
        bytes.len() >= 1,
        bytes@[0] == 0xE9 ==> bytes.len() >= 5,
        bytes@[0] == 0xFF && bytes.len() >= 2 && bytes@[1] == 0x25 ==> bytes.len() >= 6,
    ensures
        r == spec_existing_hook_target(entry, bytes@),
{
    if bytes[0] == 0xE9 {
        let disp = i32_from_le_bytes(bytes[1], bytes[2], bytes[3], bytes[4]);
        assert(bytes@.subrange(1, 5) =~= seq![bytes@[1], bytes@[2], bytes@[3], bytes@[4]]);
        Some(HookJump::Direct(wrap_u64(entry as i128 + 5 + disp as i128)))
    } else if bytes[0] == 0xFF && bytes.len() >= 2 && bytes[1] == 0x25 {
        let disp = i32_from_le_bytes(bytes[2], bytes[3], bytes[4], bytes[5]);
        assert(bytes@.subrange(2, 6) =~= seq![bytes@[2], bytes@[3], bytes@[4], bytes@[5]]);
        Some(HookJump::Indirect(wrap_u64(entry as i128 + 6 + disp as i128)))
    } else {
        None
    }
}

/// `FF 25 00000000` followed by the absolute address: an indirect jump
/// through the 8 bytes right after it.
pub open spec fn abs_jump(target: u64) -> Seq<u8> {
    seq![0xffu8, 0x25u8, 0u8, 0u8, 0u8, 0u8] + le8(target as nat)
}

/// The absolute-jump bytes to `target`.
pub fn abs_jump_bytes(target: u64) -> (r: Vec<u8>)
    ensures
        r@ == abs_jump(target),
{
    let mut out: Vec<u8> = Vec::new();
    let head: [u8; 6] = [0xff, 0x25, 0, 0, 0, 0];
    push_all_bytes(&mut out, &head);
    push_all_bytes(&mut out, &u64_to_le(target));
    assert(head@ =~= seq![0xffu8, 0x25u8, 0u8, 0u8, 0u8, 0u8]);
    out
}

/// A relocated-prologue trampoline: the five entry bytes the hook overwrites,
/// then an absolute jump back to `entry + 5`.
pub open spec fn relocated_trampoline(orig: Seq<u8>, entry: u64) -> Seq<u8> {
    orig.subrange(0, 5) + abs_jump((entry + 5) as u64)
}

pub fn relocated_trampoline_bytes(orig: &[u8], entry: u64) -> (r: Vec<u8>)
    requires
        orig.len() >= 5,
        entry + 5 <= u64::MAX,
    ensures
        r@ == relocated_trampoline(orig@, entry),
{
    let mut out: Vec<u8> = Vec::new();
    let mut i: usize = 0;
    while i < 5
        invariant
            i <= 5 <= orig.len(),
            out@ == orig@.subrange(0, i as int),
        decreases 5 - i,
    {
        out.push(orig[i]);
        i = i + 1;
        assert(out@ =~= orig@.subrange(0, i as int));
    }
    let j = abs_jump_bytes(entry + 5);
    push_all_bytes(&mut out, j.as_slice());
    out
}

/// How to hook an entry whose first five bytes are `orig`: relocate a
/// pristine prologue into a trampoline, chain behind a hook already there, or
/// leave an unrecognised patch alone.
#[derive(Clone, Copy, Debug, PartialEq, Eq, Structural)]
pub enum EntryHookPlan {
    Pristine,
    Chain(HookJump),
    Skip,
}

pub open spec fn spec_plan_entry_hook(entry: u64, orig: Seq<u8>, expected: Seq<u8>) -> EntryHookPlan {
    if orig == expected {
        EntryHookPlan::Pristine
    } else {
        match spec_existing_hook_target(entry, orig) {
            Some(j) => EntryHookPlan::Chain(j),
            None => EntryHookPlan::Skip,
        }
    }
}

/// Chooses how to hook an entry: a prologue equal to `expected` is pristine;
/// otherwise an existing `E9`/`FF 25` hook is chained behind; anything else is
/// skipped so another hook is not clobbered.
pub fn plan_entry_hook(entry: u64, orig: &[u8], expected: &[u8]) -> (r: EntryHookPlan)
    requires
        orig.len() >= 6,
    ensures
        r == spec_plan_entry_hook(entry, orig@, expected@),
{
    let same = crate::bytes::bytes_eq(orig, expected);
    if same {
        EntryHookPlan::Pristine
    } else {
        match existing_hook_target(entry, orig) {
            Some(j) => EntryHookPlan::Chain(j),
            None => EntryHookPlan::Skip,
        }
    }
}

/// The signed distance from `entry + 5` to `stub`, as the `i64` that the
/// wrapping `u64` difference reinterprets to.
pub open spec fn e9_delta(entry: u64, stub: u64) -> int {
    let d = wrap64(stub - (entry + 5));
    if d >= 0x8000_0000_0000_0000 {
        d - 0x1_0000_0000_0000_0000
    } else {
        d
    }
}

/// The 5-byte `E9 rel32` entry patch jumping to `stub`, or `None` when the
/// stub is out of reach of a 32-bit displacement.
pub open spec fn spec_e9_patch(entry: u64, stub: u64) -> Option<Seq<u8>> {
    let d = e9_delta(entry, stub);
    if d < i32::MIN || d > i32::MAX {
        None
    } else {
        Some(seq![0xE9u8] + i32_le(d as i32))
    }
}

pub fn e9_patch(entry: u64, stub: u64) -> (r: Option<[u8; 5]>)
    requires
        entry + 5 <= u64::MAX,
    ensures
        match r {
            Some(p) => spec_e9_patch(entry, stub) == Some(p@),
            None => spec_e9_patch(entry, stub) is None,
        },
{
    let w = wrap_u64(stub as i128 - (entry as i128 + 5));
    let d: i128 = if w >= 0x8000_0000_0000_0000 {
        w as i128 - 0x1_0000_0000_0000_0000
    } else {
        w as i128
    };
    if d < i32::MIN as i128 || d > i32::MAX as i128 {
        return None;
    }
    let b = i32_to_le(d as i32);
    let p: [u8; 5] = [0xE9, b[0], b[1], b[2], b[3]];
    assert(p@ =~= seq![0xE9u8] + i32_le(d as i32));
    Some(p)
}

/// The LookupEntry trampoline placed at `addr` for the entry `entry`: the
/// relocated `cmp edx,[rcx+0x10]`, its `jae` turned into a near `jae rel32`
/// to `entry + 0x2e`, and an absolute jump back to `entry + 5`.
pub open spec fn lookup_trampoline(entry: u64, addr: u64) -> Seq<u8> {
    let rel = (entry + 0x2e) - (addr + 9);
    let rel32 = (((rel % 0x1_0000_0000) + 0x1_0000_0000) % 0x1_0000_0000);
    seq![0x3bu8, 0x51u8, 0x10u8, 0x0fu8, 0x83u8] + crate::bytes::le4(rel32 as nat) + abs_jump((entry + 5) as u64)
}

pub fn lookup_trampoline_bytes(entry: u64, addr: u64) -> (r: Vec<u8>)
    requires
        entry + 0x2e <= u64::MAX,
        addr + 9 <= u64::MAX,
    ensures
        r@ == lookup_trampoline(entry, addr),
{
    let rel: i128 = (entry as i128 + 0x2e) - (addr as i128 + 9);
    let m: i128 = rel % 0x1_0000_0000;
    let rel32: i128 = (m + 0x1_0000_0000) % 0x1_0000_0000;
    assert(rel32 == (((rel % 0x1_0000_0000) + 0x1_0000_0000) % 0x1_0000_0000)) by {
        // Rust's remainder truncates toward zero; with the added modulus the
        // result is the same residue as the mathematical one.
        vstd::arithmetic::div_mod::lemma_fundamental_div_mod(rel as int, 0x1_0000_0000);
    }
    let mut out: Vec<u8> = Vec::new();
    let head: [u8; 5] = [0x3b, 0x51, 0x10, 0x0f, 0x83];
    push_all_bytes(&mut out, &head);
    push_all_bytes(&mut out, &crate::bytes::u32_to_le(rel32 as u32));
    let j = abs_jump_bytes(entry + 5);
    push_all_bytes(&mut out, j.as_slice());
    assert(head@ =~= seq![0x3bu8, 0x51u8, 0x10u8, 0x0fu8, 0x83u8]);
    out
}

/// The address a RIP-relative `disp32` operand refers to: the next
/// instruction's address plus the sign-extended displacement, wrapping.
pub open spec fn rip_target(next_ip: int, disp: Seq<u8>) -> u64 {
    wrap64(next_ip + i32_from_le(disp)) as u64
}

/// Decodes the target of a RIP-relative operand in code copied from `base`:
/// the displacement is at `code[disp_off..disp_off + 4]` and the instruction
/// ends at `base + next_off`.
pub fn rip_relative_target(base: u64, code: &[u8], disp_off: usize, next_off: u32) -> (r: u64)
    requires
        disp_off + 4 <= code@.len(),
    ensures
        r == rip_target(base + next_off, code@.subrange(disp_off as int, disp_off + 4)),
{
    let disp = i32_from_le_bytes(code[disp_off], code[disp_off + 1], code[disp_off + 2], code[disp_off + 3]);
    assert(code@.subrange(disp_off as int, disp_off + 4) =~= seq![
        code@[disp_off as int],
        code@[disp_off + 1],
        code@[disp_off + 2],
        code@[disp_off + 3],
    ]);
    wrap_u64(base as i128 + next_off as i128 + disp as i128)
}

/// An entry patch chains: decoding the `E9` patch written at `entry` (as the
/// next hook would) gives back the stub it jumps to.
pub proof fn law_e9_patch_decodes(entry: u64, stub: u64)
    requires
        entry + 5 <= u64::MAX,
        spec_e9_patch(entry, stub) is Some,
    ensures
        spec_existing_hook_target(entry, spec_e9_patch(entry, stub)->0) == Some(HookJump::Direct(stub)),
{
    let d = e9_delta(entry, stub);
    let p = seq![0xE9u8] + i32_le(d as i32);
    lemma_i32_bits_roundtrip(d as i32);
    assert(p.subrange(1, 5) =~= i32_le(d as i32));
    assert(p[0] == 0xE9);
    assert(wrap64(entry + 5 + d) == stub);
}

} // verus!

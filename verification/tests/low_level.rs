use erqol::bytes::{bytes_eq, i32_from_le_bytes, read_u32, read_u64, u32_from_le, u64_to_le};
use erqol::crash::{classify_exception, dumped_transitions, reports_access, transition_fields, ExceptionKind};
use erqol::hks::{buffer_kind, is_c0000_chunk, single_match, BufferKind, ProbeState, ALWAYS_LOG_SIZE, MAX_SEEN_SIZES};
use erqol::hooks::{
    abs_jump_bytes, e9_patch, existing_hook_target, lookup_trampoline_bytes, plan_entry_hook,
    relocated_trampoline_bytes, rip_relative_target, EntryHookPlan, HookJump,
};
use erqol::memory::{
    alloc_candidate, is_readable, region_step, scan_windows, write_order, MemoryRegion, RegionInfo,
    MAX_IDENTIFY_SCAN,
};
use erqol::scan::{plan_scan, ScanError};
use erqol::speffects::{find_index, locate_entry, row_from_chunk, split_rows, ROW_SIZE};
use erqol::spirit_summon::{call_action, continue_after_gate, gate_action, gate_jz_addr, nops, SiteAction};

#[test]
fn little_endian_helpers() {
    assert_eq!(u32_from_le(0x78, 0x56, 0x34, 0x12), 0x1234_5678);
    assert_eq!(i32_from_le_bytes(0xff, 0xff, 0xff, 0xff), -1);
    assert_eq!(u64_to_le(0x0102_0304_0506_0708), [8, 7, 6, 5, 4, 3, 2, 1]);
    let b = [0u8, 1, 0, 0, 0, 2, 0, 0, 0, 0, 0, 0, 0];
    assert_eq!(read_u32(&b, 1), 1);
    assert_eq!(read_u64(&b, 5), 2);
    assert!(bytes_eq(&[1, 2], &[1, 2]));
    assert!(!bytes_eq(&[1, 2], &[1, 2, 3]));
}

#[test]
fn decode_existing_hooks() {
    // E9 rel32 = -0x10 from entry 0x1000 + 5.
    let e9 = [0xE9, 0xF0, 0xFF, 0xFF, 0xFF, 0x90];
    assert_eq!(existing_hook_target(0x1000, &e9), Some(HookJump::Direct(0xFF5)));
    let ff25 = [0xFF, 0x25, 0x10, 0, 0, 0];
    assert_eq!(existing_hook_target(0x1000, &ff25), Some(HookJump::Indirect(0x1016)));
    assert_eq!(existing_hook_target(0x1000, &[0x55, 0x48, 0x89, 0xE5, 0, 0]), None);
}

#[test]
fn e9_patch_decodes_back_to_its_stub() {
    let entry = 0x1_4000_0000u64;
    let stub = 0x1_3FFF_0000u64;
    let p = e9_patch(entry, stub).unwrap();
    assert_eq!(p[0], 0xE9);
    assert_eq!(existing_hook_target(entry, &p), Some(HookJump::Direct(stub)));
    assert_eq!(e9_patch(0x1000, 0x1_0000_1000), None);
    assert_eq!(e9_patch(0x1000, 0x1005), Some([0xE9, 0, 0, 0, 0]));
}

#[test]
fn trampolines_and_jumps() {
    assert_eq!(abs_jump_bytes(0x1122_3344_5566_7788), vec![0xff, 0x25, 0, 0, 0, 0, 0x88, 0x77, 0x66, 0x55, 0x44, 0x33, 0x22, 0x11]);
    let t = relocated_trampoline_bytes(&[1, 2, 3, 4, 5, 6], 0x1000);
    assert_eq!(&t[..5], &[1, 2, 3, 4, 5]);
    assert_eq!(&t[5..], &abs_jump_bytes(0x1005)[..]);
    let l = lookup_trampoline_bytes(0x1000, 0x2000);
    // jae rel32 from 0x2009 to 0x102e.
    let rel = (0x102e_i64 - 0x2009) as i32;
    assert_eq!(&l[..9], &[0x3b, 0x51, 0x10, 0x0f, 0x83, rel.to_le_bytes()[0], rel.to_le_bytes()[1], rel.to_le_bytes()[2], rel.to_le_bytes()[3]]);
    assert_eq!(&l[9..], &abs_jump_bytes(0x1005)[..]);
}

#[test]
fn entry_hook_plans() {
    let expected = [0x53, 0x48, 0x83, 0xEC, 0x20];
    assert_eq!(plan_entry_hook(0x1000, &[0x53, 0x48, 0x83, 0xEC, 0x20], &expected), EntryHookPlan::Pristine);
    assert_eq!(plan_entry_hook(0x1000, &[0xE9, 0, 0, 0, 0, 0], &expected), EntryHookPlan::Chain(HookJump::Direct(0x1005)));
    assert_eq!(plan_entry_hook(0x1000, &[0xCC, 0, 0, 0, 0, 0], &expected), EntryHookPlan::Skip);
}

#[test]
fn rip_relative_operands() {
    let mut code = vec![0u8; 8];
    code[3..7].copy_from_slice(&(-0x20i32).to_le_bytes());
    assert_eq!(rip_relative_target(0x1000, &code, 3, 7), 0x1000 + 7 - 0x20);
    code[3..7].copy_from_slice(&(0x100i32).to_le_bytes());
    assert_eq!(rip_relative_target(u64::MAX - 2, &code, 3, 7), 0x104);
}

#[test]
fn readable_regions_and_walk() {
    let ok = RegionInfo { base: 0x1000, size: 0x2000, committed: true, protect: 0x04 };
    assert!(is_readable(ok));
    assert!(!is_readable(RegionInfo { protect: 0x01, ..ok }));
    assert!(!is_readable(RegionInfo { committed: false, ..ok }));
    assert!(!is_readable(RegionInfo { protect: 0x10, ..ok }));
    let (rec, next) = region_step(0x1000, ok);
    assert_eq!(rec, Some(MemoryRegion { base: 0x1000, size: 0x2000 }));
    assert_eq!(next, Some(0x3000));
}

#[test]
fn near_allocation_candidates() {
    assert_eq!(alloc_candidate(0x1_2345_6789, 0), Some(0x1_2345_0000));
    assert_eq!(alloc_candidate(0x1_2345_6789, 2), Some(0x1_2347_0000));
    assert_eq!(alloc_candidate(0x1_2345_6789, 0x8000), Some(0x1_2344_0000));
    assert_eq!(alloc_candidate(0x3_0000, 0x8002), None);
    assert_eq!(alloc_candidate(0x1234, 0x1_0000), None);
    assert_eq!(alloc_candidate(u64::MAX, 5), Some(u64::MAX));
}

#[test]
fn patch_bytes_write_opcode_last() {
    assert_eq!(write_order(5, 0), vec![1, 2, 3, 4, 0]);
    assert_eq!(write_order(3, 1), vec![0, 2, 1]);
    assert_eq!(write_order(1, 0), vec![0]);
}

#[test]
fn identity_scan_windows() {
    let regions = [
        MemoryRegion { base: 0x1000, size: 0x1000 },
        MemoryRegion { base: 0x10_0000, size: 0x10_0000 },
        MemoryRegion { base: 0x30_0000, size: 0x20_0000 },
    ];
    let w = scan_windows(&regions, 0x18_0000);
    assert_eq!(w.len(), 2);
    assert_eq!((w[0].start, w[0].len), (0x18_0000, 0x8_0000));
    assert_eq!((w[1].start, w[1].len), (0x30_0000, MAX_IDENTIFY_SCAN - 0x8_0000));
}

#[test]
fn signatures_compile_with_pelite() {
    let p = plan_scan("48 8d 15 ? ? ? ? 45 33 c0", false).unwrap();
    assert_eq!((p.slot, p.captures), (0, 1));
    assert!(!p.atoms.is_empty());
    let c = plan_scan("? 8b 4e 14 ? 8b 46 10 33 d2 48 8d 4d ? e8 $ '", true).unwrap();
    assert_eq!((c.slot, c.captures), (1, 2));
    assert_eq!(plan_scan("4", false).err(), Some(ScanError::BadPattern));
    assert_eq!(plan_scan("48 qq", false).err(), Some(ScanError::BadPattern));
    let deep = format!("e8 ${}", "{".repeat(256));
    assert_eq!(plan_scan(&deep, false).err(), Some(ScanError::TooDeep));
    let shallow = format!("e8 ${}", "{".repeat(255));
    assert_eq!(plan_scan(&shallow, false).err(), Some(ScanError::BadPattern));
    let nested = plan_scan("e8 ${ 48 }", false).unwrap();
    assert_eq!(nested.atoms, pelite::pattern::parse("e8 ${ 48 }").unwrap());
}

#[test]
fn speffect_rows_and_ids() {
    let mut blob = vec![0u8; ROW_SIZE * 2 + 7];
    blob[0] = 1;
    blob[ROW_SIZE] = 2;
    blob[2 * ROW_SIZE - 1] = 3;
    let rows = split_rows(&blob);
    assert_eq!(rows.len(), 2);
    assert_eq!(rows[0].0[0], 1);
    assert_eq!(rows[1].0[0], 2);
    assert_eq!(rows[1].0[ROW_SIZE - 1], 3);
    let r = row_from_chunk(&blob[..ROW_SIZE]);
    assert_eq!(r.0[0], 1);
    let ids = [6805000u32, 6805001, 6805099, 6805500];
    assert_eq!(find_index(&ids, 6805099), Some(2));
    assert_eq!(find_index(&ids, 6805000), Some(0));
    assert_eq!(find_index(&ids, 6805500), Some(3));
    assert_eq!(find_index(&ids, 6805002), None);
    assert_eq!(find_index(&ids, -1), None);
    assert_eq!(find_index(&[], 5), None);
    assert_eq!(locate_entry(Some(0x5000), Some(0x9000)), Some(0x5000));
    assert_eq!(locate_entry(None, Some(0x9000)), Some(0x9000 - 104));
    assert_eq!(locate_entry(None, None), None);
}

fn window(name: &str) -> Vec<u8> {
    let mut w = name.as_bytes().to_vec();
    w.push(0);
    w.resize(300, 0xAA);
    w
}

#[test]
fn posture_script_chunk_detection() {
    assert!(is_c0000_chunk(&window("data0:/action/script/c0000.hks")));
    assert!(is_c0000_chunk(&window("X:/ACTION/Script/C0000.HKS")));
    assert!(!is_c0000_chunk(&window("data0:/action/script/c0001.hks")));
    assert!(!is_c0000_chunk(&window("c0000.hks")));
    assert!(!is_c0000_chunk(&[b'a'; 300]));
    assert!(!is_c0000_chunk(&[]));
}

#[test]
fn lua_buffer_kinds() {
    assert_eq!(buffer_kind(Some(&[0x1b, b'L', b'u', b'a']), 100), BufferKind::Bytecode);
    assert_eq!(buffer_kind(Some(&[b'-', b'-', b' ', b'x']), 100), BufferKind::Source);
    assert_eq!(buffer_kind(Some(&[0x1b, b'L', b'u', b'a']), 3), BufferKind::Unknown);
    assert_eq!(buffer_kind(None, 100), BufferKind::Unknown);
    assert_eq!(BufferKind::Bytecode.label(), "bc");
    assert_eq!(BufferKind::Source.label(), "src");
    assert_eq!(BufferKind::Unknown.label(), "???");
}

#[test]
fn load_probe_dedups_and_caps() {
    let mut p = ProbeState::new();
    assert_eq!(p.step(true, 10), None);
    assert_eq!(p.total_calls, 0);
    assert_eq!(p.step(false, 10), Some(1));
    assert_eq!(p.step(false, 10), Some(2));
    assert_eq!(p.step(false, 10), None);
    assert_eq!(p.step(false, ALWAYS_LOG_SIZE), Some(4));
    assert_eq!(p.step(false, ALWAYS_LOG_SIZE), Some(5));
    assert_eq!(p.logged_lines, 4);
    for s in 0..(MAX_SEEN_SIZES + 10) {
        p.step(false, 1000 + s);
    }
    assert_eq!(p.seen.as_ref().unwrap().len(), MAX_SEEN_SIZES);
    assert_eq!(single_match(&[5]), Some(5));
    assert_eq!(single_match(&[5, 6]), None);
    assert_eq!(single_match(&[]), None);
}

#[test]
fn spirit_summon_sites() {
    assert_eq!(gate_action(&[0x74, 0x60]), SiteAction::Patch);
    assert_eq!(gate_action(&[0x90, 0x90]), SiteAction::AlreadyPatched);
    assert_eq!(gate_action(&[0x75, 0x60]), SiteAction::Mismatch);
    assert_eq!(call_action(&[0xE8, 1, 2, 3, 4]), SiteAction::Patch);
    assert_eq!(call_action(&[0x90; 5]), SiteAction::AlreadyPatched);
    assert_eq!(call_action(&[0x90, 0x90, 0x90, 0x90, 0x91]), SiteAction::Mismatch);
    assert_eq!(nops(5), vec![0x90; 5]);
    assert_eq!(gate_jz_addr(0x1000), 0x103f);
    assert!(!continue_after_gate(SiteAction::Patch, false));
    assert!(continue_after_gate(SiteAction::Patch, true));
    assert!(continue_after_gate(SiteAction::Mismatch, false));
}

#[test]
fn crash_classification() {
    assert_eq!(classify_exception(0x406d1388), ExceptionKind::Benign);
    assert_eq!(classify_exception(0x4001000a), ExceptionKind::Benign);
    assert_eq!(classify_exception(0x40010006), ExceptionKind::Benign);
    assert_eq!(classify_exception(0xc0000005), ExceptionKind::AccessViolation);
    assert_eq!(classify_exception(0xc0000094), ExceptionKind::Other);
    assert!(!reports_access(1));
    assert!(reports_access(2));
    assert_eq!(dumped_transitions(0), 0);
    assert_eq!(dumped_transitions(3), 3);
    assert_eq!(dumped_transitions(9), 4);
    assert_eq!(transition_fields(0x1000), Some((0x1000, 0x1018, 0x1020, 0x1028, 0x1030)));
    assert_eq!(transition_fields(u64::MAX - 0x2f), None);
}

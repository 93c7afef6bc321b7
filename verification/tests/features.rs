use erqol::auto_pickup::{install_auto_pickup_hook, pickup_decision, pickup_ids, sorted_contains, BASE_ID_COUNT};
use erqol::config::{Config, Flag, HpBarTracks, RuntimeToggles};
use erqol::dungeon_warp::{is_dungeon_area, unlock_rows, MapRow, ALWAYS_ON_FAST_TRAVEL_FLAG};
use erqol::esd::{StateGroup, State};
use erqol::enter_state::enter_state_plan;
use erqol::flask_confirm::{confirm_ok_index, GOLDEN_SEED_GROUP, REVERED_SPIRIT_ASH_GROUP};
use erqol::heavy_door::{args_pointer, install as heavy_door_install, is_generic_dialog, redirect_for};
use erqol::hp_bar_posture::{boss_bar_update, install as hp_bar_install, posture_mode};
use erqol::map_icons::{align16, build_block, find_row_index, stride_mode, CustomPoint, StrideMode};
use erqol::map_in_combat::{install as map_in_combat_install, CLOSE_MAP_PATCH, OPEN_MAP_GUARD_PATCH};
use erqol::merchant::{find_pattern, merchant, resolve_merchant, KALE_GROUP, MERCHANT_COUNT};
use erqol::postures::{
    action_id, action_of_id, landing_label, marker_label, named_label, request_sync, rem_euclid, sync_plan,
    LabelTable, PostureAction, PostureSync, SYNC_INTERVAL_TICKS,
};
use erqol::runes::{consume_matching, has_matching, indicator_update, is_remembrance, is_rune, InventoryEntry, RuneKind};
use erqol::settings_menu::{apply_settings_action, hp_bar_label, menu_label, settings_action_of_id, SettingsAction};
use erqol::silly::{init as silly_init, RerouteRegistry};
use erqol::config::BoolFlags;

#[test]
fn rune_ids_and_consumption() {
    assert!(is_rune(2900));
    assert!(is_rune(2002960));
    assert!(!is_rune(2950));
    assert!(is_remembrance(2950));
    let mut inv = vec![
        InventoryEntry { param_id: 2900, quantity: 3 },
        InventoryEntry { param_id: 100, quantity: 9 },
        InventoryEntry { param_id: 2905, quantity: 1 },
    ];
    let values = [200u64, 7, 5000];
    assert!(has_matching(&inv, RuneKind::Golden));
    let mut runes: u32 = 10;
    let r = consume_matching(&mut inv, &values, RuneKind::Golden, &mut runes).unwrap();
    assert_eq!(r.total_value, 3 * 200 + 5000);
    assert_eq!(r.consumed_count, 4);
    assert_eq!(runes, 10 + 5600);
    assert_eq!(inv[0].quantity, 0);
    assert_eq!(inv[1].quantity, 9);
    assert_eq!(inv[2].quantity, 0);
    assert!(!has_matching(&inv, RuneKind::Golden));
    assert_eq!(consume_matching(&mut inv, &values, RuneKind::Golden, &mut runes), None);
    assert_eq!(runes, 5610);
}

#[test]
fn rune_count_saturates() {
    let mut inv = vec![InventoryEntry { param_id: 2900, quantity: 1 }];
    let mut runes: u32 = u32::MAX - 5;
    consume_matching(&mut inv, &[100], RuneKind::Golden, &mut runes).unwrap();
    assert_eq!(runes, u32::MAX);
    let mut inv = vec![InventoryEntry { param_id: 2900, quantity: 1 }];
    let mut runes: u32 = 1;
    consume_matching(&mut inv, &[0x1_0000_0002], RuneKind::Golden, &mut runes).unwrap();
    assert_eq!(runes, u32::MAX);
}

#[test]
fn rune_indicators() {
    assert_eq!(indicator_update(false, 9, true, true), (9, None));
    assert_eq!(indicator_update(true, 0, true, false), (5, Some([0x41, 0x41, 0x40])));
    assert_eq!(indicator_update(true, 5, true, false), (5, None));
    assert_eq!(indicator_update(true, 5, false, false), (0, Some([0x40, 0x40, 0x40])));
}

#[test]
fn pickup_list_is_sorted_and_complete() {
    let base = pickup_ids(false);
    assert_eq!(base.len(), BASE_ID_COUNT);
    assert!(base.windows(2).all(|w| w[0] < w[1]));
    assert!(sorted_contains(&base, 4100));
    assert!(!sorted_contains(&base, 7829));
    let reforged = pickup_ids(true);
    assert_eq!(reforged.len(), BASE_ID_COUNT + 2);
    assert!(sorted_contains(&reforged, 7829));
    assert!(sorted_contains(&reforged, 7879));
    let inst = install_auto_pickup_hook(Some(0x1234), true);
    assert_eq!(inst.target, 0x1234);
    assert!(inst.has_reforged_ids);
    let inst = install_auto_pickup_hook(Some(0x1234), false);
    assert!(!inst.has_reforged_ids);
}

#[test]
fn pickup_decisions() {
    let ids = pickup_ids(false);
    let d = pickup_decision(&ids, 1000, true, 5);
    assert!(d.auto_interact && d.log_seen && !d.warn_missing_rune_piece);
    let d = pickup_decision(&ids, 1000, false, 1000);
    assert!(!d.auto_interact && !d.log_seen);
    let d = pickup_decision(&ids, 7829, true, 0);
    assert!(!d.auto_interact && d.warn_missing_rune_piece);
}

#[test]
fn dungeon_rows_unlock_once() {
    assert!(is_dungeon_area(30_020_000));
    assert!(!is_dungeon_area(60_000_000));
    let mut rows = vec![
        MapRow { area_id: 30_020_000, flag: 0 },
        MapRow { area_id: 60_000_000, flag: 0 },
        MapRow { area_id: 61_000_000, flag: 1234 },
        MapRow { area_id: 31_000_000, flag: ALWAYS_ON_FAST_TRAVEL_FLAG },
    ];
    let r = unlock_rows(&mut rows);
    assert_eq!(r.unlocked, 2);
    assert_eq!(r.samples, vec![30_020_000, 61_000_000]);
    assert_eq!(rows[0].flag, ALWAYS_ON_FAST_TRAVEL_FLAG);
    assert_eq!(rows[1].flag, 0);
    assert_eq!(rows[2].flag, ALWAYS_ON_FAST_TRAVEL_FLAG);
    let again = unlock_rows(&mut rows);
    assert_eq!(again.unlocked, 0);
    assert!(again.samples.is_empty());
}

#[test]
fn dungeon_report_keeps_five_samples() {
    let mut rows: Vec<MapRow> = (0..8).map(|i| MapRow { area_id: 30_000_000 + i, flag: 0 }).collect();
    let r = unlock_rows(&mut rows);
    assert_eq!(r.unlocked, 8);
    assert_eq!(r.samples, vec![30_000_000, 30_000_001, 30_000_002, 30_000_003, 30_000_004]);
}

#[test]
fn posture_labels_and_actions() {
    assert_eq!(rem_euclid(-1, 13), 12);
    assert_eq!(rem_euclid(27, 13), 1);
    assert_eq!(named_label("General", LabelTable::Body, 2), "General: Alternative");
    assert_eq!(named_label("Right Arm", LabelTable::Arm, -1), "Right Arm: Lithe");
    assert_eq!(named_label("Movement", LabelTable::Movement, 1), "Movement: Heavy");
    assert_eq!(landing_label(true), "[ON] Alternative Landing");
    assert_eq!(marker_label(false, "Regal"), "[ ] Regal");
    let a = PostureAction::SetLeftArm(4);
    assert_eq!(action_id(a), 0x3004);
    assert_eq!(action_of_id(0x3004), Some(a));
    assert_eq!(action_of_id(0x100D), None);
    assert_eq!(action_of_id(0x5001), Some(PostureAction::ClearAll));
}

#[test]
fn posture_sync_schedule() {
    let mut s = PostureSync::new();
    assert!(s.tick());
    for _ in 1..SYNC_INTERVAL_TICKS {
        assert!(!s.tick());
    }
    assert!(s.tick());
    request_sync(&mut s);
    assert!(s.tick());
    assert!(!s.tick());
    let p = sync_plan(&[6805111, 6805099], &[6805131, 6805111]);
    assert_eq!(p.apply, vec![6805099]);
    assert!(p.remove.contains(&6805131));
    assert!(!p.remove.contains(&6805111));
}

#[test]
fn heavy_door_and_hp_bar_and_map() {
    assert_eq!(heavy_door_install(Some(0x1000)), Some(0x100c));
    assert_eq!(heavy_door_install(None), None);
    assert!(is_generic_dialog(0));
    assert!(!is_generic_dialog(3));
    assert_eq!(args_pointer(0, 7), 7);
    assert_eq!(args_pointer(5, 7), 5);
    assert_eq!(redirect_for(4200), Some(3));
    assert_eq!(redirect_for(4201), None);
    assert_eq!(hp_bar_install(Some(9)), Some(9));
    let mut c = Config::default();
    assert!(!posture_mode(&c));
    c.hp_bar_tracks = HpBarTracks::Posture;
    assert!(posture_mode(&c));
    assert_eq!(boss_bar_update(true, 50, 0), Some(50));
    assert_eq!(boss_bar_update(false, 0, 30), Some(0));
    assert_eq!(boss_bar_update(false, 0, 0), None);
    let p = map_in_combat_install(Some(0x10), Some(0x20));
    assert_eq!((p[0].addr, p[0].bytes.as_slice()), (0x10, &OPEN_MAP_GUARD_PATCH[..]));
    assert_eq!((p[1].addr, p[1].bytes.as_slice()), (0x20, &CLOSE_MAP_PATCH[..]));
}

#[test]
fn enter_state_and_flask_confirm() {
    let g = StateGroup {
        id: 2147483000,
        states: vec![State { addr: 0x10, id: 0, transitions: Vec::new(), entry_events: Vec::new(), exit_events: Vec::new() }],
        initial_state: 0x10,
    };
    let p = enter_state_plan(0x10, Some(&g));
    assert!(p.log_diag && p.run_group_patchers && !p.run_grace_patchers);
    let p = enter_state_plan(0x20, Some(&g));
    assert!(!p.run_group_patchers);
    let p = enter_state_plan(0x10, None);
    assert!(!p.log_diag && !p.run_group_patchers);
    assert_eq!(confirm_ok_index(GOLDEN_SEED_GROUP), Some(6));
    assert_eq!(confirm_ok_index(REVERED_SPIRIT_ASH_GROUP), Some(9));
    assert_eq!(confirm_ok_index(0), None);
}

#[test]
fn settings_menu_rows() {
    let mut c = Config::default();
    assert_eq!(menu_label(&c, Flag::AutoPickup), "[ON] Auto Pickup");
    assert_eq!(menu_label(&c, Flag::DungeonWarp), "[ON] Dungeon Warp (restart to change)");
    assert_eq!(hp_bar_label(HpBarTracks::Posture), "HP Bar Tracks: Posture");
    let mut rt = RuntimeToggles { dungeon_warp_enabled: true };
    let a = settings_action_of_id(0x100).unwrap();
    assert_eq!(a, SettingsAction::Toggle(Flag::DungeonWarp));
    apply_settings_action(&mut c, &mut rt, a);
    assert!(!c.flags.get(Flag::DungeonWarp));
    assert!(!rt.dungeon_warp_enabled);
    assert_eq!(menu_label(&c, Flag::DungeonWarp), "[OFF] Dungeon Warp (restart to change)");
    let h = settings_action_of_id(0x200).unwrap();
    apply_settings_action(&mut c, &mut rt, h);
    assert_eq!(c.hp_bar_tracks, HpBarTracks::Posture);
    assert_eq!(settings_action_of_id(0x100 + 19), None);
}

#[test]
fn silly_swaps_pick_candidates() {
    let mut reg = RerouteRegistry::new();
    silly_init(&mut reg);
    assert_eq!(reg.entries.len(), 16);
    let mut flags = BoolFlags::default();
    flags.set(Flag::SillyAreaNames, true);
    let caelid = String::from("Caelid");
    assert_eq!(reg.replacement(&caelid, &flags, 0).as_deref(), Some("Gary, Indiana"));
    assert_eq!(reg.replacement(&caelid, &flags, 5).as_deref(), Some("Detroit"));
    assert_eq!(reg.replacement(&String::from("Margit"), &flags, 0), None);
    flags.set(Flag::SillyBossNames, true);
    assert_eq!(reg.replacement(&String::from("Margit"), &flags, 1).as_deref(), Some("Marge Simpson"));
    assert_eq!(reg.replacement(&String::from("Limgrave"), &flags, 0), None);
}

#[test]
fn merchant_table_and_identity() {
    assert_eq!(MERCHANT_COUNT, 19);
    let k = merchant(0);
    assert_eq!((k.range_start, k.range_end, k.item_lot, k.event_flag), (100500, 100524, 110410, 400049));
    let m1 = merchant(1);
    assert_eq!((m1.range_start, m1.range_end, m1.item_lot, m1.event_flag), (100525, 100549, 119000, 400901));
    let m14 = merchant(14);
    assert_eq!(m14.range_start, 100875);
    assert_eq!(resolve_merchant(KALE_GROUP, Some(3)), Some(0));
    assert_eq!(resolve_merchant(5, Some(3)), Some(3));
    assert_eq!(resolve_merchant(5, None), None);
    assert_eq!(find_pattern(&[1, 2, 3, 2, 3], &[2, 3]), Some(1));
    assert_eq!(find_pattern(&[1, 2], &[2, 3]), None);
}

/// A two-row WorldMapPoint block (mode 2 offsets) with ids 100 and the
/// Church of Elleh.
fn source_block() -> Vec<u8> {
    let data_size: u32 = 0x34 + 2 * 12 + 2 * 0x100;
    let tab = align16(data_size as usize);
    let mut s = vec![0u8; 16 + tab + 2 * 8];
    s[0..4].copy_from_slice(&data_size.to_le_bytes());
    s[4..8].copy_from_slice(&2u32.to_le_bytes());
    s[16 + 0x2d] = 2;
    let rows_start = 0x34 + 2 * 12;
    for i in 0..2usize {
        let off = (rows_start + i * 0x100) as u32;
        s[16 + 0x34 + i * 12..16 + 0x34 + i * 12 + 4].copy_from_slice(&off.to_le_bytes());
        s[16 + rows_start + i * 0x100 + 0x40] = 0x11 * (i as u8 + 1);
    }
    let ids: [(u32, u32); 2] = [(100, 0), (61_423_600, 1)];
    for (k, (id, idx)) in ids.iter().enumerate() {
        s[16 + tab + k * 8..16 + tab + k * 8 + 4].copy_from_slice(&id.to_le_bytes());
        s[16 + tab + k * 8 + 4..16 + tab + k * 8 + 8].copy_from_slice(&idx.to_le_bytes());
    }
    s
}

#[test]
fn map_icon_block_is_extended() {
    assert_eq!(stride_mode(2, 0), StrideMode { table_off: 0x34, stride: 12, size: 4 });
    assert_eq!(stride_mode(0x85, 2), StrideMode { table_off: 0x48, stride: 24, size: 8 });
    assert_eq!(stride_mode(0x05, 2), StrideMode { table_off: 0x44, stride: 12, size: 4 });
    assert_eq!(align16(0x24c), 0x250);
    let src = source_block();
    assert_eq!(find_row_index(&src, 0x250, 2, 61_423_600), Some(1));
    assert_eq!(find_row_index(&src, 0x250, 2, 5), None);
    let pt = CustomPoint {
        area_no: 60,
        grid_x_no: 42,
        grid_z_no: 36,
        pos_x_bits: 1.5f32.to_bits(),
        pos_y_bits: 0,
        pos_z_bits: (-2.0f32).to_bits(),
        msg_id: 69_990_000,
    };
    let b = build_block(&src, &[pt]).unwrap();
    assert_eq!(b.count, 3);
    let data = 0x34 + 3 * 12 + 3 * 0x100;
    assert_eq!(u32::from_le_bytes(b.bytes[0..4].try_into().unwrap()) as usize, data);
    assert_eq!(u32::from_le_bytes(b.bytes[4..8].try_into().unwrap()), 3);
    assert_eq!(u16::from_le_bytes(b.bytes[16 + 0xa..16 + 0xc].try_into().unwrap()), 3);
    let tab = align16(data);
    assert_eq!(b.bytes.len(), 16 + tab + 3 * 8);
    // Vanilla ids keep their rows; the custom id follows the largest one.
    assert_eq!(find_row_index(&b.bytes, tab, 3, 100), Some(0));
    assert_eq!(find_row_index(&b.bytes, tab, 3, 61_423_600), Some(1));
    assert_eq!(find_row_index(&b.bytes, tab, 3, 61_423_601), Some(2));
    // Rows follow the rebuilt offset table; the custom row is the template
    // (row 1) with the point's fields.
    let rows_start = 0x34 + 3 * 12;
    for i in 0..3usize {
        let off = u32::from_le_bytes(b.bytes[16 + 0x34 + i * 12..16 + 0x34 + i * 12 + 4].try_into().unwrap()) as usize;
        assert_eq!(off, rows_start + i * 0x100);
    }
    let row = &b.bytes[16 + rows_start + 2 * 0x100..16 + rows_start + 3 * 0x100];
    assert_eq!(row[0x40], 0x22);
    assert_eq!((row[0x20], row[0x21], row[0x22]), (60, 42, 36));
    assert_eq!(f32::from_le_bytes(row[0x24..0x28].try_into().unwrap()), 1.5);
    assert_eq!(f32::from_le_bytes(row[0x2c..0x30].try_into().unwrap()), -2.0);
    assert_eq!(u16::from_le_bytes(row[0x0c..0x0e].try_into().unwrap()), 3);
    assert_eq!(row[0x10] & 4, 4);
    assert_eq!(row[0x90], 0);
    assert_eq!(i32::from_le_bytes(row[0x30..0x34].try_into().unwrap()), 69_990_000);
    let vanilla0 = &b.bytes[16 + rows_start..16 + rows_start + 0x100];
    assert_eq!(vanilla0[0x40], 0x11);
}

#[test]
fn map_icon_block_needs_rows() {
    let mut src = source_block();
    src[4..8].copy_from_slice(&0u32.to_le_bytes());
    assert!(build_block(&src, &[]).is_none());
}

#[test]
fn merchant_literal_lowest_above_group() {
    let p = erqol::esd::make_range_pattern(100525, 100549);
    let mut bytes = p.to_vec();
    bytes.extend_from_slice(&p);
    assert_eq!(erqol::merchant::find_first_match_after(&bytes, 0, 0), Some((12, 1)));
    assert_eq!(erqol::merchant::find_first_match_after(&bytes, 100, 0), Some((100, 1)));
    assert_eq!(erqol::merchant::find_first_match_after(&bytes, 0, 12), None);
}

#[test]
fn heavy_door_dispatch_redirect() {
    assert_eq!(erqol::heavy_door::dispatch_redirect(0, 0x5000, 0, 4200), Some(3));
    assert_eq!(erqol::heavy_door::dispatch_redirect(0x1_0000_0000, 0, 0x6000, 4200), Some(3));
    assert_eq!(erqol::heavy_door::dispatch_redirect(1, 0x5000, 0, 4200), None);
    assert_eq!(erqol::heavy_door::dispatch_redirect(0, 0, 0, 4200), None);
    assert_eq!(erqol::heavy_door::dispatch_redirect(0, 0x5000, 0, 4201), None);
}

#[test]
fn toggle_ids_wrap_and_stay_distinct() {
    let mut a = erqol::messages::MessageIdAllocator { next: i32::MIN + 2 };
    let ids = erqol::settings_menu::alloc_toggle_ids(&mut a);
    let shown: Vec<i32> = ids.iter().copied().filter(|&v| v != -1).collect();
    for i in 0..shown.len() {
        for j in i + 1..shown.len() {
            assert_ne!(shown[i], shown[j]);
        }
    }
    assert_eq!(shown[0], i32::MIN + 2);
    assert_eq!(shown[3], i32::MAX);
}

#[test]
fn spirit_summon_second_install_is_noop() {
    assert_eq!(erqol::spirit_summon::gate_action(&[0x74, 0x10]), erqol::spirit_summon::SiteAction::Patch);
    assert_eq!(erqol::spirit_summon::gate_action(&erqol::spirit_summon::nops(2)), erqol::spirit_summon::SiteAction::AlreadyPatched);
    assert_eq!(erqol::spirit_summon::call_action(&[0xE8, 1, 2, 3, 4]), erqol::spirit_summon::SiteAction::Patch);
    assert_eq!(erqol::spirit_summon::call_action(&erqol::spirit_summon::nops(5)), erqol::spirit_summon::SiteAction::AlreadyPatched);
}

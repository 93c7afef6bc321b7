use erqol::anti_farm_shop::{
    candidate, lineup_index, lineups, make_lineup, make_shop_state, patch_grace, serves_shop_menu,
    sold_by_game_shop, GameShopRow, CANDIDATE_COUNT, EQUIP_TYPE_GOODS, ONE_F32_BITS, OPTION_INDEX, SHOP_ID,
};
use erqol::esd::{
    add_talk_list_data, add_talk_list_data_alt, add_talk_list_data_if, event_arg_int, get_ezstate_int_value,
    is_grace_state_group, is_sort_chest_event, make_flag_cleared_expression, make_int_expression,
    make_menu_closed_expr, make_range_pattern, make_talk_list_result_expression, open_regular_shop, Event, State,
    StateGroup, Transition, MSG_SORT_CHEST, SHOP_MENU_CLOSED_EXPR, TRUE_EXPR,
};
use erqol::level_up::{
    afford_bytes, build_condition, find_level_up_row, install_rows, is_level_up_if, refresh_step, LevelUpRows,
    AFFORD_OFFSET, ESD_FALSE, ESD_TRUE, FLAGS_COND, MSG_LEVEL_UP,
};
use erqol::splice::{has_row_message, plan_splice, splice_option_anchored, SpliceAnchor};

fn ie(v: i32) -> Vec<u8> {
    make_int_expression(v).to_vec()
}

fn row(index: i32, msg: i32) -> Event {
    Event { command: add_talk_list_data(), args: vec![ie(index), ie(msg), ie(-1)] }
}

fn level_up_row(slot: i32) -> Event {
    Event { command: add_talk_list_data_if(), args: vec![FLAGS_COND.to_vec(), ie(slot), ie(MSG_LEVEL_UP), ie(-1)] }
}

fn plain(target: u64, evaluator: Vec<u8>) -> Transition {
    Transition { target, sub_transitions: Vec::new(), evaluator }
}

/// A small grace menu: the menu state lists Sort Chest and Level Up, the
/// dispatch state sends row 1 to 0x3000 and falls back to the menu.
fn grace_group() -> StateGroup {
    let menu = State {
        addr: 0x1000,
        id: 1,
        transitions: vec![plain(0x2000, TRUE_EXPR.to_vec())],
        entry_events: vec![row(1, MSG_SORT_CHEST), level_up_row(2)],
        exit_events: Vec::new(),
    };
    let dispatch = State {
        addr: 0x2000,
        id: 2,
        transitions: vec![
            plain(0x3000, make_talk_list_result_expression(1).to_vec()),
            plain(0x1000, TRUE_EXPR.to_vec()),
        ],
        entry_events: Vec::new(),
        exit_events: Vec::new(),
    };
    StateGroup { id: 2147483616, states: vec![menu, dispatch], initial_state: 0x1000 }
}

#[test]
fn expression_encodings() {
    assert_eq!(make_int_expression(1), [0x82, 1, 0, 0, 0, 0xa1]);
    assert_eq!(make_int_expression(-1), [0x82, 0xff, 0xff, 0xff, 0xff, 0xa1]);
    assert_eq!(make_talk_list_result_expression(2), [0x57, 0x84, 0x82, 2, 0, 0, 0, 0x95, 0xa1]);
    assert_eq!(make_menu_closed_expr(5), SHOP_MENU_CLOSED_EXPR);
    assert_eq!(make_menu_closed_expr(-64)[1], 0);
    assert_eq!(make_flag_cleared_expression(0x100), [0x4f, 0x82, 0, 1, 0, 0, 0x85, 0x40, 0x95, 0xa1]);
    assert_eq!(make_range_pattern(1, 2), [0x82, 1, 0, 0, 0, 0xa1, 0x82, 2, 0, 0, 0, 0xa1]);
    assert_eq!(get_ezstate_int_value(&make_int_expression(-7)), -7);
    assert_eq!(get_ezstate_int_value(&TRUE_EXPR), 1);
    assert_eq!(get_ezstate_int_value(&[0x40, 0xa1]), 0);
    assert_eq!(get_ezstate_int_value(&[0x82, 1, 2]), -1);
}

#[test]
fn grace_group_recognised_by_sort_chest_row() {
    let g = grace_group();
    assert!(is_sort_chest_event(&g.states[0].entry_events[0]));
    assert!(is_grace_state_group(&g));
    assert_eq!(event_arg_int(&g.states[0].entry_events[0], 1), MSG_SORT_CHEST);
    assert_eq!(event_arg_int(&g.states[0].entry_events[0], 9), -1);
}

#[test]
fn splice_adds_row_and_dispatch_once() {
    let mut g = grace_group();
    let plan = plan_splice(&g, SpliceAnchor::SortChestRow, 777).unwrap();
    assert_eq!((plan.menu_state, plan.dispatch_state, plan.insert_at), (0, 1, 1));
    assert!(splice_option_anchored(&mut g, SpliceAnchor::SortChestRow, 70, 777, 0x9000));
    assert_eq!(g.states[0].entry_events.len(), 3);
    assert_eq!(event_arg_int(&g.states[0].entry_events[2], 0), 70);
    assert_eq!(event_arg_int(&g.states[0].entry_events[2], 1), 777);
    assert_eq!(g.states[1].transitions.len(), 3);
    assert_eq!(g.states[1].transitions[1].target, 0x9000);
    assert_eq!(g.states[1].transitions[1].evaluator, make_talk_list_result_expression(70).to_vec());
    assert_eq!(g.states[1].transitions[2].target, 0x1000);
    assert!(has_row_message(&g, 777));
    // Patching again is a no-op.
    assert!(!splice_option_anchored(&mut g, SpliceAnchor::SortChestRow, 70, 777, 0x9000));
    assert_eq!(g.states[0].entry_events.len(), 3);
    assert_eq!(g.states[1].transitions.len(), 3);
}

#[test]
fn splice_needs_an_anchor() {
    let mut g = grace_group();
    g.states[0].entry_events.remove(0);
    assert!(plan_splice(&g, SpliceAnchor::SortChestRow, 777).is_none());
    assert!(!splice_option_anchored(&mut g, SpliceAnchor::SortChestRow, 70, 777, 0x9000));
}

#[test]
fn shop_candidates_and_rows() {
    assert_eq!(CANDIDATE_COUNT, 4);
    assert_eq!(candidate(0), (20811, 500));
    assert_eq!(candidate(3), (20801, 500));
    let r = make_lineup(15060, 1000, 55);
    assert_eq!(r.equip_id, 15060);
    assert_eq!(r.value, 1000);
    assert_eq!(r.sell_quantity, -1);
    assert_eq!(r.equip_type, EQUIP_TYPE_GOODS);
    assert_eq!(r.set_num, 1);
    assert_eq!(f32::from_bits(r.value_magnification_bits), 1.0f32);
    assert_eq!(r.value_magnification_bits, ONE_F32_BITS);
    assert_eq!(r.menu_title_msg_id, 55);
    assert_eq!((r.mtrl_id, r.icon_id, r.name_msg_id, r.menu_icon_id), (-1, -1, -1, -1));
}

#[test]
fn shop_drops_items_sold_forever() {
    let table = [
        GameShopRow { equip_id: 20811, equip_type: EQUIP_TYPE_GOODS, sell_quantity: -1 },
        GameShopRow { equip_id: 15080, equip_type: EQUIP_TYPE_GOODS, sell_quantity: 5 },
        GameShopRow { equip_id: 15060, equip_type: 0, sell_quantity: -1 },
    ];
    assert!(sold_by_game_shop(Some(&table), 20811));
    assert!(!sold_by_game_shop(Some(&table), 15080));
    assert!(!sold_by_game_shop(Some(&table), 15060));
    assert!(!sold_by_game_shop(None, 20811));
    let rows = lineups(Some(&table), 9);
    let ids: Vec<i32> = rows.iter().map(|r| r.equip_id).collect();
    assert_eq!(ids, vec![15080, 15060, 20801]);
    let all = lineups(None, 9);
    assert_eq!(all.len(), 4);
}

#[test]
fn shop_keeps_everything_when_all_are_sold() {
    let table: Vec<GameShopRow> = (0..4)
        .map(|i| GameShopRow { equip_id: candidate(i).0, equip_type: EQUIP_TYPE_GOODS, sell_quantity: -1 })
        .collect();
    let rows = lineups(Some(&table), 9);
    let ids: Vec<i32> = rows.iter().map(|r| r.equip_id).collect();
    assert_eq!(ids, vec![20811, 15080, 15060, 20801]);
}

#[test]
fn shop_lookups_answer_the_reserved_range() {
    assert!(serves_shop_menu(SHOP_ID));
    assert!(!serves_shop_menu(SHOP_ID + 1));
    assert_eq!(lineup_index(SHOP_ID, 3), Some(0));
    assert_eq!(lineup_index(SHOP_ID + 2, 3), Some(2));
    assert_eq!(lineup_index(SHOP_ID + 3, 3), None);
    assert_eq!(lineup_index(SHOP_ID - 1, 3), None);
    assert_eq!(lineup_index(i32::MIN, 3), None);
}

#[test]
fn shop_state_opens_range_and_returns() {
    let s = make_shop_state(3, 0x1000, 0x5000);
    assert_eq!(s.addr, 0x5000);
    assert_eq!(s.entry_events.len(), 1);
    assert_eq!(s.entry_events[0].command, open_regular_shop());
    assert_eq!(s.entry_events[0].args, vec![ie(SHOP_ID), ie(SHOP_ID + 2)]);
    assert_eq!(s.transitions.len(), 1);
    assert_eq!(s.transitions[0].target, 0x1000);
    assert_eq!(s.transitions[0].evaluator, SHOP_MENU_CLOSED_EXPR.to_vec());
}

#[test]
fn shop_patch_adds_entry_once() {
    let mut g = grace_group();
    assert!(patch_grace(&mut g, false, 800, 4, 0x5000).is_none());
    assert_eq!(g.states[0].entry_events.len(), 2);
    let shop = patch_grace(&mut g, true, 800, 4, 0x5000).unwrap();
    assert_eq!(shop.transitions[0].target, 0x1000);
    assert_eq!(event_arg_int(&g.states[0].entry_events[2], 0), OPTION_INDEX);
    assert!(patch_grace(&mut g, true, 800, 4, 0x5000).is_none());
    let mut no_initial = grace_group();
    no_initial.initial_state = 0;
    assert!(patch_grace(&mut no_initial, true, 800, 4, 0x5000).is_none());
}

#[test]
fn level_up_condition_bytes() {
    let on = build_condition(true);
    assert_eq!(on.len(), 22);
    assert_eq!(&on[..19], &FLAGS_COND[..]);
    assert_eq!(&on[19..], &[ESD_TRUE, 0x98, 0xA1]);
    assert_eq!(build_condition(false)[AFFORD_OFFSET], ESD_FALSE);
    assert_eq!(afford_bytes(true), (ESD_TRUE, ESD_FALSE));
    assert_eq!(afford_bytes(false), (ESD_FALSE, ESD_TRUE));
}

#[test]
fn level_up_rows_are_exclusive() {
    let mut rows = LevelUpRows::new(4);
    assert_eq!(rows.on_event.args[0][AFFORD_OFFSET], ESD_FALSE);
    assert_eq!(rows.off_event.args[0][AFFORD_OFFSET], ESD_FALSE);
    rows.set_afford(true);
    assert_eq!(rows.on_event.args[0][AFFORD_OFFSET], ESD_TRUE);
    assert_eq!(rows.off_event.args[0][AFFORD_OFFSET], ESD_FALSE);
    rows.set_afford(false);
    assert_eq!(rows.on_event.args[0][AFFORD_OFFSET], ESD_FALSE);
    assert_eq!(rows.off_event.args[0][AFFORD_OFFSET], ESD_TRUE);
    assert_eq!(rows.on_event.command, add_talk_list_data_alt());
    assert_eq!(rows.on_event.args[5], ie(1));
    assert_eq!(rows.off_event.args[5], ie(0));
    assert_eq!(rows.on_event.args[1], ie(4));
}

#[test]
fn level_up_rows_replace_vanilla_row() {
    let mut g = grace_group();
    assert!(is_level_up_if(&g.states[0].entry_events[1]));
    assert_eq!(find_level_up_row(&g), Some((0, 1)));
    assert_eq!(install_rows(&mut g, true, true), None);
    assert_eq!(g.states[0].entry_events.len(), 2);
    assert_eq!(install_rows(&mut g, false, true), Some(2));
    assert_eq!(g.states[0].entry_events.len(), 3);
    assert_eq!(g.states[0].entry_events[1].command, add_talk_list_data_alt());
    assert_eq!(g.states[0].entry_events[1].args[0][AFFORD_OFFSET], ESD_TRUE);
    assert_eq!(g.states[0].entry_events[2].args[0][AFFORD_OFFSET], ESD_FALSE);
    assert_eq!(find_level_up_row(&g), None);
    assert_eq!(install_rows(&mut g, false, true), None);
}

#[test]
fn level_up_slot_defaults_to_two() {
    let mut g = grace_group();
    g.states[0].entry_events[1].args[1] = vec![0x82, 1, 2];
    assert_eq!(install_rows(&mut g, false, false), Some(2));
    let mut g = grace_group();
    g.states[0].entry_events[1].args[1] = ie(6);
    assert_eq!(install_rows(&mut g, false, false), Some(6));
}

#[test]
fn level_up_refresh_writes_on_change_only() {
    let mut last = false;
    assert_eq!(refresh_step(true, &mut last, false), None);
    assert_eq!(refresh_step(true, &mut last, true), Some((ESD_TRUE, ESD_FALSE)));
    assert!(last);
    assert_eq!(refresh_step(true, &mut last, true), None);
    assert_eq!(refresh_step(false, &mut last, false), None);
    assert!(last);
    assert_eq!(refresh_step(true, &mut last, false), Some((ESD_FALSE, ESD_TRUE)));
}

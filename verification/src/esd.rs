//! The EzState (ESD) talk-script data the mod reads and builds: talk commands,
//! the byte-code expressions used as command arguments and transition
//! evaluators, and a plain-value model of events, transitions, states and state
//! groups. Pointers of the game's runtime structures are modelled by their
//! addresses (`0` for null).

use vstd::prelude::*;
use crate::bytes::{i32_le, i32_from_le, i32_to_le, i32_from_le_bytes, lemma_i32_bits_roundtrip};

verus! {

/// A talk command, identified by its bank and id.
#[derive(PartialEq, Eq, Structural, Clone, Copy, Debug)]
pub struct Command {
    pub bank: i32,
    pub id: i32,
}

/// `AddTalkListData(index, message_id, -1)`.
#[verifier::allow_in_spec]
pub fn add_talk_list_data() -> Command
    returns
        (Command { bank: 1, id: 19 }),
{
    Command { bank: 1, id: 19 }
}
/// `AddTalkListDataIf(condition, index, message_id, -1)`.
#[verifier::allow_in_spec]
pub fn add_talk_list_data_if() -> Command
    returns
        (Command { bank: 5, id: 19 }),
{
    Command { bank: 5, id: 19 }
}
/// `AddTalkListDataAlt(condition, index, message_id, -1, sort, indicator)`.
#[verifier::allow_in_spec]
pub fn add_talk_list_data_alt() -> Command
    returns
        (Command { bank: 5, id: 149 }),
{
    Command { bank: 5, id: 149 }
}
#[verifier::allow_in_spec]
pub fn close_shop_message() -> Command
    returns
        (Command { bank: 1, id: 12 }),
{
    Command { bank: 1, id: 12 }
}
#[verifier::allow_in_spec]
pub fn clear_talk_list_data() -> Command
    returns
        (Command { bank: 1, id: 20 }),
{
    Command { bank: 1, id: 20 }
}
#[verifier::allow_in_spec]
pub fn show_shop_message() -> Command
    returns
        (Command { bank: 1, id: 10 }),
{
    Command { bank: 1, id: 10 }
}
/// `OpenRegularShop(range_start, range_end)`: the merchant's buy shop.
#[verifier::allow_in_spec]
pub fn open_regular_shop() -> Command
    returns
        (Command { bank: 1, id: 22 }),
{
    Command { bank: 1, id: 22 }
}
/// `OpenSellShop(-1, -1)`: the sell-shop sub-menu.
#[verifier::allow_in_spec]
pub fn open_sell_shop() -> Command
    returns
        (Command { bank: 1, id: 46 }),
{
    Command { bank: 1, id: 46 }
}
/// `OpenEnhanceShop(0)`: weapon reinforcement.
#[verifier::allow_in_spec]
pub fn open_enhance_shop() -> Command
    returns
        (Command { bank: 1, id: 24 }),
{
    Command { bank: 1, id: 24 }
}
/// `CombineMenuFlagAndEventFlag(menu_flag, event_flag)`.
#[verifier::allow_in_spec]
pub fn combine_menu_flag_and_event_flag() -> Command
    returns
        (Command { bank: 1, id: 49 }),
{
    Command { bank: 1, id: 49 }
}
/// `OpenEquipmentChangeOfPurposeShop()`: Ash of War duplication.
#[verifier::allow_in_spec]
pub fn open_equipment_change_of_purpose_shop() -> Command
    returns
        (Command { bank: 1, id: 48 }),
{
    Command { bank: 1, id: 48 }
}
/// `OpenBuddyUpgradeMenu()`: spirit tuning.
#[verifier::allow_in_spec]
pub fn open_buddy_upgrade_menu() -> Command
    returns
        (Command { bank: 1, id: 136 }),
{
    Command { bank: 1, id: 136 }
}
/// `AwardItemLot(lot)`.
#[verifier::allow_in_spec]
pub fn award_item_lot() -> Command
    returns
        (Command { bank: 1, id: 104 }),
{
    Command { bank: 1, id: 104 }
}
/// The generic `OpenGenericDialog` sub-call `6:2147483647`.
#[verifier::allow_in_spec]
pub fn open_generic_dialog() -> Command
    returns
        (Command { bank: 6, id: 2147483647 }),
{
    Command { bank: 6, id: 2147483647 }
}

/// Message bound of talk-menu texts.
pub const MSGBND_EVENT_TEXT_FOR_TALK: u32 = 33;
/// Message bound of world-map place names.
pub const MSGBND_PLACE_NAME: u32 = 0x13;
/// The grace menu's "Sort Chest" row message.
pub const MSG_SORT_CHEST: i32 = 15000395;

// ---- Expressions ----

/// `82 <i32 LE> a1`: an expression holding one 4-byte integer.
pub open spec fn int_expr(v: i32) -> Seq<u8> {
    seq![0x82u8] + i32_le(v) + seq![0xa1u8]
}

/// `GetTalkListEntryResult() == v`.
pub open spec fn talk_list_result_expr(v: i32) -> Seq<u8> {
    seq![0x57u8, 0x84u8, 0x82u8] + i32_le(v) + seq![0x95u8, 0xa1u8]
}

/// `(CheckSpecificPersonMenuIsOpen(menu_type, 0) == 1 &&
/// CheckSpecificPersonGenericDialogIsOpen(0) == 0) == 0`, with the menu type
/// stored as the one-byte constant `menu_type + 64`.
pub open spec fn menu_closed_expr(menu_type: i32) -> Seq<u8> {
    seq![0x7bu8, ((menu_type + 64) % 256) as u8] + seq![
        0x40u8,
        0x86u8,
        0x41u8,
        0x95u8,
        0x7au8,
        0x40u8,
        0x85u8,
        0x40u8,
        0x95u8,
        0x98u8,
        0x40u8,
        0x95u8,
        0xa1u8,
    ]
}

/// `GetEventFlag(flag) == 0`.
pub open spec fn flag_cleared_expr(flag: i32) -> Seq<u8> {
    seq![0x4fu8, 0x82u8] + i32_le(flag) + seq![0x85u8, 0x40u8, 0x95u8, 0xa1u8]
}

/// The baked `OpenRegularShop(start, end)` range literal `82 <start> a1 82 <end> a1`.
pub open spec fn range_pattern(start: i32, end: i32) -> Seq<u8> {
    int_expr(start) + int_expr(end)
}

/// The integer an expression holds: a one-byte constant `0x40 + v` followed
/// by its terminator, or a 4-byte integer `82 <i32> a1`; `-1` otherwise.
pub open spec fn ezstate_int_value(expr: Seq<u8>) -> int {
    if expr.len() == 2 {
        expr[0] - 64
    } else if expr.len() == 6 && expr[0] == 0x82 {
        i32_from_le(expr.subrange(1, 5))
    } else {
        -1
    }
}

/// The constant-true evaluator `41 a1` (`if 1`).
pub const TRUE_EXPR: [u8; 2] = [0x41, 0xa1];

/// The menu-closed expression of the talk list menu (type 1).
pub const TALK_MENU_CLOSED_EXPR: [u8; 15] = [
    0x7b, 0x41, 0x40, 0x86, 0x41, 0x95, 0x7a, 0x40, 0x85, 0x40, 0x95, 0x98, 0x40, 0x95, 0xa1,
];

/// The menu-closed expression of the regular shop menu (type 5).
pub const SHOP_MENU_CLOSED_EXPR: [u8; 15] = [
    0x7b, 0x45, 0x40, 0x86, 0x41, 0x95, 0x7a, 0x40, 0x85, 0x40, 0x95, 0x98, 0x40, 0x95, 0xa1,
];

pub fn make_int_expression(value: i32) -> (r: [u8; 6])
    ensures
        r@ == int_expr(value),
{
    let b = i32_to_le(value);
    let r = [0x82, b[0], b[1], b[2], b[3], 0xa1];
    assert(r@ =~= int_expr(value));
    r
}

/// `GetTalkListEntryResult() == value`.
pub fn make_talk_list_result_expression(value: i32) -> (r: [u8; 9])
    ensures
        r@ == talk_list_result_expr(value),
{
    let b = i32_to_le(value);
    let r = [0x57, 0x84, 0x82, b[0], b[1], b[2], b[3], 0x95, 0xa1];
    assert(r@ =~= talk_list_result_expr(value));
    r
}

/// The one-byte truncation of `x`, i.e. `x mod 256`.
fn low_byte(x: i64) -> (r: u8)
    requires
        x > i64::MIN,
    ensures
        r as int == x % 256,
{
    if x >= 0 {
        (x % 256) as u8
    } else {
        let y: i64 = -x - 1;
        let m: i64 = y % 256;
        proof {
            let q = y / 256;
            vstd::arithmetic::div_mod::lemma_fundamental_div_mod(y as int, 256);
            // x = -(256 q + m) - 1 = 256 (-q - 1) + (255 - m)
            assert(x == 256 * (-q - 1) + (255 - m));
            vstd::arithmetic::div_mod::lemma_fundamental_div_mod_converse_mod(
                x as int,
                256,
                -q - 1,
                255 - m,
            );
        }
        (255 - m) as u8
    }
}

/// Builds a menu-closed expression for an arbitrary menu type.
pub fn make_menu_closed_expr(menu_type: i32) -> (r: [u8; 15])
    requires
        menu_type + 64 <= i32::MAX,
    ensures
        r@ == menu_closed_expr(menu_type),
{
    let t = low_byte(menu_type as i64 + 64);
    let r = [0x7b, t, 0x40, 0x86, 0x41, 0x95, 0x7a, 0x40, 0x85, 0x40, 0x95, 0x98, 0x40, 0x95, 0xa1];
    assert(r@ =~= menu_closed_expr(menu_type));
    r
}

/// `GetEventFlag(flag) == 0`.
pub fn make_flag_cleared_expression(flag: i32) -> (r: [u8; 10])
    ensures
        r@ == flag_cleared_expr(flag),
{
    let b = i32_to_le(flag);
    let r = [0x4f, 0x82, b[0], b[1], b[2], b[3], 0x85, 0x40, 0x95, 0xa1];
    assert(r@ =~= flag_cleared_expr(flag));
    r
}

/// The baked `OpenRegularShop(start, end)` range literal.
pub fn make_range_pattern(start: i32, end: i32) -> (r: [u8; 12])
    ensures
        r@ == range_pattern(start, end),
{
    let s = make_int_expression(start);
    let e = make_int_expression(end);
    let r = [s[0], s[1], s[2], s[3], s[4], s[5], e[0], e[1], e[2], e[3], e[4], e[5]];
    assert(r@ =~= range_pattern(start, end));
    r
}

/// Parses an expression containing only a 1 or 4 byte integer; `-1` for any
/// other expression.
pub fn get_ezstate_int_value(expr: &[u8]) -> (r: i32)
    ensures
        r as int == ezstate_int_value(expr@),
{
    if expr.len() == 2 {
        return expr[0] as i32 - 64;
    }
    if expr.len() == 6 && expr[0] == 0x82 {
        let r = i32_from_le_bytes(expr[1], expr[2], expr[3], expr[4]);
        assert(expr@.subrange(1, 5) =~= seq![expr@[1], expr@[2], expr@[3], expr@[4]]);
        return r;
    }
    -1
}

/// An integer expression gives back the integer it was built from.
pub proof fn lemma_int_expr_value(v: i32)
    ensures
        int_expr(v).len() == 6,
        ezstate_int_value(int_expr(v)) == v,
{
    lemma_i32_bits_roundtrip(v);
    assert(int_expr(v).subrange(1, 5) =~= i32_le(v));
}

} // verus!

verus! {

// ---- Plain-value model of the runtime structures ----

/// One talk event: a command and its argument expressions.
#[derive(Clone, Debug)]
pub struct Event {
    pub command: Command,
    pub args: Vec<Vec<u8>>,
}

/// One transition: its target state (by address, `0` for none), its nested
/// sub-transitions in priority order and its evaluator expression.
#[derive(Debug)]
pub struct Transition {
    pub target: u64,
    pub sub_transitions: Vec<Transition>,
    pub evaluator: Vec<u8>,
}

/// One state of a state group: its address, id, transitions in priority order
/// and its entry/exit events.
#[derive(Debug)]
pub struct State {
    pub addr: u64,
    pub id: i32,
    pub transitions: Vec<Transition>,
    pub entry_events: Vec<Event>,
    pub exit_events: Vec<Event>,
}

/// A state group: its id, its states in array order and the address of its
/// initial state (`0` for none).
#[derive(Debug)]
pub struct StateGroup {
    pub id: i32,
    pub states: Vec<State>,
    pub initial_state: u64,
}

/// The integer held by argument `index` of an event, `-1` when there is no
/// such argument or it is not an integer expression.
pub open spec fn arg_int(e: Event, index: int) -> int {
    if 0 <= index < e.args@.len() {
        ezstate_int_value(e.args@[index]@)
    } else {
        -1
    }
}

/// The grace menu's "Sort Chest" row, in any of the three `AddTalkListData` forms.
pub open spec fn spec_is_sort_chest_event(e: Event) -> bool {
    if e.command == add_talk_list_data() {
        arg_int(e, 1) == MSG_SORT_CHEST
    } else if e.command == add_talk_list_data_if() || e.command == add_talk_list_data_alt() {
        arg_int(e, 2) == MSG_SORT_CHEST
    } else {
        false
    }
}

/// A state group is a grace menu when some state's entry events list the Sort
/// Chest row.
pub open spec fn spec_is_grace_state_group(g: StateGroup) -> bool {
    exists|i: int, j: int|
        0 <= i < g.states@.len() && 0 <= j < g.states@[i].entry_events@.len()
            && #[trigger] spec_is_sort_chest_event(g.states@[i].entry_events@[j])
}

/// The evaluator starts with `SetREG0(GetTalkListEntryResult())` (`57 84`), the
/// signature of a talk menu's row-dispatch transition.
pub open spec fn spec_is_talk_list_result_transition(t: Transition) -> bool {
    t.evaluator@.len() >= 2 && t.evaluator@[0] == 0x57 && t.evaluator@[1] == 0x84
}

/// The target of a transition's highest-priority path: its own target when
/// set, otherwise the leaf reached by following the first sub-transition.
pub open spec fn leaf_target(t: Transition) -> Option<u64>
    decreases t,
{
    if t.target != 0 {
        Some(t.target)
    } else if t.sub_transitions@.len() == 0 {
        None
    } else {
        leaf_target(t.sub_transitions@[0])
    }
}

/// The transition's own target, or that of some nested sub-transition, is `target`.
pub open spec fn reaches(t: Transition, target: u64) -> bool
    decreases t, 1nat,
{
    target != 0 && (t.target == target || reaches_any(t.sub_transitions@, target))
}

/// Some transition of `s` reaches `target`.
pub open spec fn reaches_any(s: Seq<Transition>, target: u64) -> bool
    decreases s, 0nat,
{
    if s.len() == 0 {
        false
    } else {
        reaches(s[0], target) || reaches_any(s.subrange(1, s.len() as int), target)
    }
}

pub proof fn lemma_reaches_any(s: Seq<Transition>, target: u64)
    ensures
        reaches_any(s, target) <==> exists|i: int| 0 <= i < s.len() && #[trigger] reaches(s[i], target),
    decreases s.len(),
{
    if s.len() > 0 {
        let rest = s.subrange(1, s.len() as int);
        lemma_reaches_any(rest, target);
        if reaches_any(s, target) && !reaches(s[0], target) {
            let k = choose|k: int| 0 <= k < rest.len() && #[trigger] reaches(rest[k], target);
            assert(reaches(s[k + 1], target));
        }
        if exists|i: int| 0 <= i < s.len() && #[trigger] reaches(s[i], target) {
            let k = choose|k: int| 0 <= k < s.len() && #[trigger] reaches(s[k], target);
            if k > 0 {
                assert(reaches(rest[k - 1], target));
            }
        }
    }
}

pub fn event_arg_int(event: &Event, index: usize) -> (r: i32)
    ensures
        r as int == arg_int(*event, index as int),
{
    if event.args.len() <= index {
        return -1;
    }
    get_ezstate_int_value(event.args[index].as_slice())
}

pub fn is_sort_chest_event(event: &Event) -> (r: bool)
    ensures
        r == spec_is_sort_chest_event(*event),
{
    if event.command == add_talk_list_data() {
        return event_arg_int(event, 1) == MSG_SORT_CHEST;
    }
    if event.command == add_talk_list_data_if() || event.command == add_talk_list_data_alt() {
        return event_arg_int(event, 2) == MSG_SORT_CHEST;
    }
    false
}

pub fn is_grace_state_group(group: &StateGroup) -> (r: bool)
    ensures
        r == spec_is_grace_state_group(*group),
{
    for i in 0..group.states.len()
        invariant
            forall|a: int, b: int|
                0 <= a < i && 0 <= b < group.states@[a].entry_events@.len()
                    ==> !#[trigger] spec_is_sort_chest_event(group.states@[a].entry_events@[b]),
    {
        let state = &group.states[i];
        for j in 0..state.entry_events.len()
            invariant
                0 <= i < group.states@.len(),
                state == group.states@[i as int],
                forall|a: int, b: int|
                    0 <= a < i && 0 <= b < group.states@[a].entry_events@.len()
                        ==> !#[trigger] spec_is_sort_chest_event(group.states@[a].entry_events@[b]),
                forall|b: int|
                    0 <= b < j ==> !#[trigger] spec_is_sort_chest_event(state.entry_events@[b]),
        {
            if is_sort_chest_event(&state.entry_events[j]) {
                assert(spec_is_sort_chest_event(group.states@[i as int].entry_events@[j as int]));
                return true;
            }
        }
    }
    false
}

pub fn is_talk_list_result_transition(transition: &Transition) -> (r: bool)
    ensures
        r == spec_is_talk_list_result_transition(*transition),
{
    transition.evaluator.len() >= 2 && transition.evaluator[0] == 0x57
        && transition.evaluator[1] == 0x84
}

pub fn leaf_transition_target(transition: &Transition) -> (r: Option<u64>)
    ensures
        r == leaf_target(*transition),
    decreases transition,
{
    if transition.target != 0 {
        return Some(transition.target);
    }
    if transition.sub_transitions.len() == 0 {
        return None;
    }
    leaf_transition_target(&transition.sub_transitions[0])
}

pub fn transition_reaches(transition: &Transition, target: u64) -> (r: bool)
    ensures
        r == reaches(*transition, target),
    decreases transition,
{
    if target == 0 {
        return false;
    }
    if transition.target == target {
        return true;
    }
    let subs = &transition.sub_transitions;
    proof {
        lemma_reaches_any(subs@, target);
    }
    for i in 0..subs.len()
        invariant
            subs == transition.sub_transitions,
            target != 0,
            forall|k: int| 0 <= k < i ==> !#[trigger] reaches(subs@[k], target),
    {
        if transition_reaches(&subs[i], target) {
            proof {
                lemma_reaches_any(subs@, target);
            }
            return true;
        }
    }
    false
}

} // verus!

verus! {

/// `(i2, j2)` comes before `(i, j)` in state-then-transition order.
pub open spec fn lex_before(i2: int, j2: int, i: int, j: int) -> bool {
    i2 < i || (i2 == i && j2 < j)
}

/// Transition `j` of state `i` of `g`, when both exist.
pub open spec fn transition_at(g: StateGroup, i: int, j: int) -> Transition {
    g.states@[i].transitions@[j]
}

pub open spec fn valid_edge(g: StateGroup, i: int, j: int) -> bool {
    0 <= i < g.states@.len() && 0 <= j < g.states@[i].transitions@.len()
}

/// A plain pass-through state: exactly one transition, constant-true, with a
/// direct target and no sub-transitions.
pub open spec fn spec_is_plain_true_state(s: State) -> bool {
    s.transitions@.len() == 1 && s.transitions@[0].target != 0
        && s.transitions@[0].sub_transitions@.len() == 0
        && ezstate_int_value(s.transitions@[0].evaluator@) == 1
}

/// Transition `(i, j)` is a confirm dialog's OK branch towards `ok_target`:
/// its highest-priority path resolves to `ok_target` and its evaluator starts
/// with `#B9`.
pub open spec fn dialog_branch(g: StateGroup, ok_target: u64, i: int, j: int) -> bool {
    &&& ok_target != 0
    &&& valid_edge(g, i, j)
    &&& leaf_target(transition_at(g, i, j)) == Some(ok_target)
    &&& transition_at(g, i, j).evaluator@.len() >= 1
    &&& transition_at(g, i, j).evaluator@[0] == 0xB9
}

/// Transition `(i, j)` is owned by a state other than `target` and its sub-tree
/// reaches `target`.
pub open spec fn incoming_branch(g: StateGroup, target: u64, i: int, j: int) -> bool {
    &&& valid_edge(g, i, j)
    &&& g.states@[i].addr != target
    &&& reaches(transition_at(g, i, j), target)
}

/// The address of the state at array position `index`.
pub fn state_at_index(group: &StateGroup, index: usize) -> (r: Option<u64>)
    ensures
        index < group.states@.len() ==> r == Some(group.states@[index as int].addr),
        index >= group.states@.len() ==> r is None,
{
    if index < group.states.len() {
        Some(group.states[index].addr)
    } else {
        None
    }
}

pub fn is_plain_true_state(state: &State) -> (r: bool)
    ensures
        r == spec_is_plain_true_state(*state),
{
    if state.transitions.len() != 1 {
        return false;
    }
    let transition = &state.transitions[0];
    if transition.target == 0 {
        return false;
    }
    if transition.sub_transitions.len() != 0 {
        return false;
    }
    get_ezstate_int_value(transition.evaluator.as_slice()) == 1
}

/// The confirm-dialog state of a flask group: the first state (with its first
/// such transition) whose highest-priority branch `#B9 == 0` resolves to
/// `ok_target`. Returns the state index and the transition index.
pub fn find_dialog_state(group: &StateGroup, ok_target: u64) -> (r: Option<(usize, usize)>)
    ensures
        r matches Some((i, j)) ==> dialog_branch(*group, ok_target, i as int, j as int)
            && forall|i2: int, j2: int|
            lex_before(i2, j2, i as int, j as int) ==> !dialog_branch(*group, ok_target, i2, j2),
        r is None ==> forall|i2: int, j2: int| !dialog_branch(*group, ok_target, i2, j2),
{
    if ok_target == 0 {
        return None;
    }
    for i in 0..group.states.len()
        invariant
            ok_target != 0,
            forall|i2: int, j2: int| i2 < i ==> !dialog_branch(*group, ok_target, i2, j2),
    {
        let state = &group.states[i];
        for j in 0..state.transitions.len()
            invariant
                ok_target != 0,
                0 <= i < group.states@.len(),
                state == group.states@[i as int],
                forall|i2: int, j2: int|
                    lex_before(i2, j2, i as int, j as int) ==> !dialog_branch(*group, ok_target, i2, j2),
        {
            let transition = &state.transitions[j];
            if leaf_transition_target(transition) == Some(ok_target) {
                let ev = &transition.evaluator;
                if ev.len() >= 1 && ev[0] == 0xB9 {
                    return Some((i, j));
                }
            }
        }
    }
    None
}

/// The first transition owned by a state other than `target` whose sub-tree
/// reaches `target`, as (state index, transition index).
pub fn incoming_edge(group: &StateGroup, target: u64) -> (r: Option<(usize, usize)>)
    ensures
        r matches Some((i, j)) ==> incoming_branch(*group, target, i as int, j as int)
            && forall|i2: int, j2: int|
            lex_before(i2, j2, i as int, j as int) ==> !incoming_branch(*group, target, i2, j2),
        r is None ==> forall|i2: int, j2: int| !incoming_branch(*group, target, i2, j2),
{
    if target == 0 {
        return None;
    }
    for i in 0..group.states.len()
        invariant
            target != 0,
            forall|i2: int, j2: int| i2 < i ==> !incoming_branch(*group, target, i2, j2),
    {
        let state = &group.states[i];
        if state.addr != target {
            for j in 0..state.transitions.len()
                invariant
                    target != 0,
                    0 <= i < group.states@.len(),
                    state == group.states@[i as int],
                    state.addr != target,
                    forall|i2: int, j2: int|
                        lex_before(i2, j2, i as int, j as int) ==> !incoming_branch(*group, target, i2, j2),
            {
                if transition_reaches(&state.transitions[j], target) {
                    return Some((i, j));
                }
            }
        }
    }
    None
}

/// The group is `old` with only the target of transition `(s, t)` set to `x`.
pub open spec fn redirected(new: StateGroup, old: StateGroup, s: int, t: int, x: u64) -> bool {
    &&& new.id == old.id
    &&& new.initial_state == old.initial_state
    &&& new.states@.len() == old.states@.len()
    &&& forall|i: int| 0 <= i < old.states@.len() && i != s ==> #[trigger] new.states@[i] == old.states@[i]
    &&& new.states@[s].addr == old.states@[s].addr
    &&& new.states@[s].id == old.states@[s].id
    &&& new.states@[s].entry_events == old.states@[s].entry_events
    &&& new.states@[s].exit_events == old.states@[s].exit_events
    &&& new.states@[s].transitions@.len() == old.states@[s].transitions@.len()
    &&& forall|j: int|
        0 <= j < old.states@[s].transitions@.len() && j != t
            ==> #[trigger] new.states@[s].transitions@[j] == old.states@[s].transitions@[j]
    &&& new.states@[s].transitions@[t].target == x
    &&& new.states@[s].transitions@[t].sub_transitions == old.states@[s].transitions@[t].sub_transitions
    &&& new.states@[s].transitions@[t].evaluator == old.states@[s].transitions@[t].evaluator
}

/// Redirects transition `(s, t)` to `new_target`, leaving its evaluator and
/// sub-transitions untouched. Refuses a null target.
pub fn redirect_transition(group: &mut StateGroup, s: usize, t: usize, new_target: u64) -> (r: bool)
    requires
        valid_edge(*old(group), s as int, t as int),
    ensures
        r == (new_target != 0),
        r ==> redirected(*final(group), *old(group), s as int, t as int, new_target),
        !r ==> *final(group) == *old(group),
{
    if new_target == 0 {
        return false;
    }
    group.states[s].transitions[t].target = new_target;
    true
}

} // verus!

//! Level Up Indicator: the grace menu's "Level Up" row shows the talk-list
//! indicator while the player holds enough runes for the next level.
//!
//! The vanilla row (`AddTalkListDataIf`, no indicator) is replaced by two
//! `AddTalkListDataAlt` rows on the same slot and message, mutually exclusive
//! at run time through their conditions `flags && afford` (indicator 1) and
//! `flags && !afford` (indicator 0). `afford` is a one-byte literal at
//! [`AFFORD_OFFSET`] of each condition, rewritten whenever affordability
//! changes.

use vstd::prelude::*;
use vstd::slice::slice_to_vec;
use crate::esd::{
    add_talk_list_data_alt, add_talk_list_data_if, arg_int, event_arg_int, int_expr, lex_before,
    make_int_expression, Event, State, StateGroup,
};

verus! {

/// Message id of the vanilla "Level Up" row.
pub const MSG_LEVEL_UP: i32 = 15000540;

/// Level from which no further level up is possible.
pub const MAX_LEVEL: u32 = 713;

/// ESD small-integer literal `1` (true).
pub const ESD_TRUE: u8 = 0x41;

/// ESD small-integer literal `0` (false).
pub const ESD_FALSE: u8 = 0x40;

/// ESD logical-and opcode.
pub const OP_AND: u8 = 0x98;

/// ESD end-of-expression opcode.
pub const OP_TERM: u8 = 0xA1;

/// `GetEventFlag(4680) == 1 || GetEventFlag(4699) == 1`, the vanilla row's
/// condition.
pub const FLAGS_COND: [u8; 19] = [
    0x4f, 0x82, 0x48, 0x12, 0x00, 0x00, 0x85, 0x41, 0x95, 0x4f, 0x82, 0x5b, 0x12, 0x00, 0x00, 0x85,
    0x41, 0x95, 0x99,
];

/// Offset of the affordability literal in a condition.
pub const AFFORD_OFFSET: usize = 19;

/// Slot used when the vanilla row's slot argument is not an integer.
pub const DEFAULT_SLOT: i32 = 2;

/// The ESD literal of a boolean.
pub open spec fn literal(b: bool) -> u8 {
    if b {
        ESD_TRUE
    } else {
        ESD_FALSE
    }
}

/// The condition `flags && afford`.
pub open spec fn condition(afford: bool) -> Seq<u8> {
    FLAGS_COND@ + seq![literal(afford), OP_AND, OP_TERM]
}

/// Builds the condition `flags && afford`.
pub fn build_condition(afford: bool) -> (r: Vec<u8>)
    ensures
        r@ == condition(afford),
        r@[AFFORD_OFFSET as int] == literal(afford),
{
    let mut c = slice_to_vec(&FLAGS_COND);
    c.push(if afford { ESD_TRUE } else { ESD_FALSE });
    c.push(OP_AND);
    c.push(OP_TERM);
    c
}

/// The vanilla Level Up row: an `AddTalkListDataIf` whose message argument is
/// [`MSG_LEVEL_UP`].
pub open spec fn spec_is_level_up_if(e: Event) -> bool {
    e.command == add_talk_list_data_if() && arg_int(e, 2) == MSG_LEVEL_UP
}

/// Whether `event` is the vanilla Level Up row.
pub fn is_level_up_if(event: &Event) -> (r: bool)
    ensures
        r == spec_is_level_up_if(*event),
{
    event.command == add_talk_list_data_if() && event_arg_int(event, 2) == MSG_LEVEL_UP
}

/// Entry event `j` of state `i` is a vanilla Level Up row.
pub open spec fn level_up_at(g: StateGroup, i: int, j: int) -> bool {
    &&& 0 <= i < g.states@.len()
    &&& 0 <= j < g.states@[i].entry_events@.len()
    &&& spec_is_level_up_if(g.states@[i].entry_events@[j])
}

/// `(i, j)` is the first vanilla Level Up row in state-then-event order.
pub open spec fn first_level_up(g: StateGroup, i: int, j: int) -> bool {
    &&& level_up_at(g, i, j)
    &&& forall|i2: int, j2: int| lex_before(i2, j2, i, j) ==> !#[trigger] level_up_at(g, i2, j2)
}

/// Finds the first vanilla Level Up row.
pub fn find_level_up_row(group: &StateGroup) -> (r: Option<(usize, usize)>)
    ensures
        r matches Some((i, j)) ==> first_level_up(*group, i as int, j as int),
        r is None ==> forall|i: int, j: int| !#[trigger] level_up_at(*group, i, j),
{
    for i in 0..group.states.len()
        invariant
            forall|i2: int, j2: int| i2 < i ==> !#[trigger] level_up_at(*group, i2, j2),
    {
        let events = &group.states[i].entry_events;
        for j in 0..events.len()
            invariant
                events == group.states@[i as int].entry_events,
                i < group.states@.len(),
                forall|i2: int, j2: int| i2 < i ==> !#[trigger] level_up_at(*group, i2, j2),
                forall|j2: int| j2 < j ==> !#[trigger] level_up_at(*group, i as int, j2),
        {
            if is_level_up_if(&events[j]) {
                proof {
                    assert forall|i2: int, j2: int| lex_before(i2, j2, i as int, j as int) implies !#[trigger] level_up_at(
                        *group,
                        i2,
                        j2,
                    ) by {
                        if i2 == i as int {
                        }
                    }
                }
                return Some((i, j));
            }
        }
        proof {
            assert forall|i2: int, j2: int| i2 < i + 1 implies !#[trigger] level_up_at(*group, i2, j2) by {
                if i2 == i as int && 0 <= j2 < events@.len() {
                }
            }
        }
    }
    None
}

/// The slot of a vanilla row: its slot argument, or [`DEFAULT_SLOT`] when
/// that reads as `-1`.
pub open spec fn row_slot(e: Event) -> int {
    if arg_int(e, 1) != -1 {
        arg_int(e, 1)
    } else {
        DEFAULT_SLOT as int
    }
}

/// `e` is an `AddTalkListDataAlt` Level Up row on `slot` with condition
/// `cond` and indicator `indicator`.
pub open spec fn is_alt_row(e: Event, slot: i32, indicator: i32, cond: Seq<u8>) -> bool {
    &&& e.command == add_talk_list_data_alt()
    &&& e.args@.len() == 6
    &&& e.args@[0]@ == cond
    &&& e.args@[1]@ == int_expr(slot)
    &&& e.args@[2]@ == int_expr(MSG_LEVEL_UP)
    &&& e.args@[3]@ == int_expr(-1i32)
    &&& e.args@[4]@ == int_expr(0i32)
    &&& e.args@[5]@ == int_expr(indicator)
}

/// The two replacement rows: `on` shows the indicator, `off` does not.
#[derive(Debug)]
pub struct LevelUpRows {
    pub slot: i32,
    pub on_event: Event,
    pub off_event: Event,
}

/// The rows on `slot`, with `on` shown exactly when `afford`.
pub open spec fn rows_for(r: LevelUpRows, slot: i32, afford: bool) -> bool {
    &&& r.slot == slot
    &&& is_alt_row(r.on_event, slot, 1, condition(afford))
    &&& is_alt_row(r.off_event, slot, 0, condition(!afford))
}

fn alt_row(slot: i32, indicator: i32, afford: bool) -> (e: Event)
    ensures
        is_alt_row(e, slot, indicator, condition(afford)),
{
    let mut args: Vec<Vec<u8>> = Vec::new();
    args.push(build_condition(afford));
    args.push(slice_to_vec(&make_int_expression(slot)));
    args.push(slice_to_vec(&make_int_expression(MSG_LEVEL_UP)));
    args.push(slice_to_vec(&make_int_expression(-1)));
    args.push(slice_to_vec(&make_int_expression(0)));
    args.push(slice_to_vec(&make_int_expression(indicator)));
    Event { command: add_talk_list_data_alt(), args }
}

impl LevelUpRows {
    /// The two rows on `slot`, neither showing the indicator yet (both
    /// conditions carry `false`).
    pub fn new(slot: i32) -> (r: Self)
        ensures
            r.slot == slot,
            is_alt_row(r.on_event, slot, 1, condition(false)),
            is_alt_row(r.off_event, slot, 0, condition(false)),
    {
        LevelUpRows { slot, on_event: alt_row(slot, 1, false), off_event: alt_row(slot, 0, false) }
    }

    /// Rewrites the affordability literal of both rows: `on` carries
    /// `afford`, `off` carries `!afford`.
    pub fn set_afford(&mut self, afford: bool)
        requires
            is_alt_row(old(self).on_event, old(self).slot, 1, condition(false)) || is_alt_row(
                old(self).on_event,
                old(self).slot,
                1,
                condition(true),
            ),
            is_alt_row(old(self).off_event, old(self).slot, 0, condition(false)) || is_alt_row(
                old(self).off_event,
                old(self).slot,
                0,
                condition(true),
            ),
        ensures
            rows_for(*final(self), old(self).slot, afford),
    {
        let on = build_condition(afford);
        let off = build_condition(!afford);
        self.on_event.args.set(0, on);
        self.off_event.args.set(0, off);
    }
}

/// The literals to write into the `on` and `off` conditions.
pub fn afford_bytes(afford: bool) -> (r: (u8, u8))
    ensures
        r == (literal(afford), literal(!afford)),
{
    if afford {
        (ESD_TRUE, ESD_FALSE)
    } else {
        (ESD_FALSE, ESD_TRUE)
    }
}

/// One refresh: when the feature is on and affordability changed since the
/// last write, the literals to write; `last` becomes the current value
/// whenever the feature is on.
pub fn refresh_step(enabled: bool, last: &mut bool, afford: bool) -> (r: Option<(u8, u8)>)
    ensures
        !enabled ==> r is None && *final(last) == *old(last),
        enabled ==> *final(last) == afford,
        enabled && *old(last) == afford ==> r is None,
        enabled && *old(last) != afford ==> r == Some((literal(afford), literal(!afford))),
{
    if !enabled {
        return None;
    }
    let prev = *last;
    *last = afford;
    if prev == afford {
        None
    } else {
        Some(afford_bytes(afford))
    }
}

/// `new` is `old` with entry event `j` of state `i` replaced by the two ALT
/// rows on `slot`, the first (indicator 1) carrying `afford`, the second
/// (indicator 0) carrying `!afford`.
pub open spec fn replaced(new: StateGroup, old: StateGroup, i: int, j: int, slot: i32, afford: bool) -> bool {
    let oe = old.states@[i].entry_events@;
    let ne = new.states@[i].entry_events@;
    &&& new.id == old.id
    &&& new.initial_state == old.initial_state
    &&& new.states@.len() == old.states@.len()
    &&& forall|k: int| 0 <= k < old.states@.len() && k != i ==> #[trigger] new.states@[k] == old.states@[k]
    &&& new.states@[i].addr == old.states@[i].addr
    &&& new.states@[i].id == old.states@[i].id
    &&& new.states@[i].transitions == old.states@[i].transitions
    &&& new.states@[i].exit_events == old.states@[i].exit_events
    &&& ne.len() == oe.len() + 1
    &&& forall|k: int| 0 <= k < j ==> #[trigger] ne[k] == oe[k]
    &&& is_alt_row(ne[j], slot, 1, condition(afford))
    &&& is_alt_row(ne[j + 1], slot, 0, condition(!afford))
    &&& forall|k: int| j < k < oe.len() ==> #[trigger] ne[k + 1] == oe[k]
}

/// Replaces the first vanilla Level Up row with the two ALT rows on its slot,
/// showing the indicator exactly when `afford`, and returns that slot.
/// Nothing changes when the rows were installed before or the group has no
/// vanilla row.
pub fn install_rows(group: &mut StateGroup, installed: bool, afford: bool) -> (r: Option<i32>)
    ensures
        r is None ==> *final(group) == *old(group),
        r is None ==> installed || forall|i: int, j: int| !#[trigger] level_up_at(*old(group), i, j),
        r matches Some(slot) ==> {
            &&& !installed
            &&& exists|i: int, j: int|
                first_level_up(*old(group), i, j) && row_slot(old(group).states@[i].entry_events@[j])
                    == slot && replaced(*final(group), *old(group), i, j, slot, afford)
        },
{
    let (i, j) = match find_level_up_row(group) {
        Some(p) => p,
        None => return None,
    };
    if installed {
        return None;
    }
    let s = event_arg_int(&group.states[i].entry_events[j], 1);
    let slot = if s != -1 { s } else { DEFAULT_SLOT };
    let mut rows = LevelUpRows::new(slot);
    rows.set_afford(afford);
    let ghost g0 = *group;
    let ghost oe = group.states@[i as int].entry_events@;
    let mut state = group.states.remove(i);
    assert(state == g0.states@[i as int]);
    assert(j < state.entry_events@.len());
    state.entry_events.set(j, rows.on_event);
    let n = state.entry_events.len();
    assert(j < n);
    state.entry_events.insert(j + 1, rows.off_event);
    group.states.insert(i, state);
    proof {
        let ne = group.states@[i as int].entry_events@;
        assert(ne.len() == oe.len() + 1);
        assert forall|k: int| j < k < oe.len() implies #[trigger] ne[k + 1] == oe[k] by {
        }
        assert forall|k: int| 0 <= k < g0.states@.len() && k != i implies #[trigger] group.states@[k]
            == g0.states@[k] by {
            if k < i {
            } else {
            }
        }
        assert(replaced(*group, g0, i as int, j as int, slot, afford));
    }
    Some(slot)
}

/// Exactly one of the two rows is shown: whatever the affordability, one
/// condition carries the literal `true` and the other `false`, and the row
/// carrying `true` has the indicator exactly when the level is affordable.
pub proof fn law_rows_exclusive(r: LevelUpRows, slot: i32, afford: bool)
    requires
        rows_for(r, slot, afford),
    ensures
        (r.on_event.args@[0]@[AFFORD_OFFSET as int] == ESD_TRUE) != (r.off_event.args@[0]@[AFFORD_OFFSET
            as int] == ESD_TRUE),
        (r.on_event.args@[0]@[AFFORD_OFFSET as int] == ESD_TRUE) == afford,
{
}

} // verus!

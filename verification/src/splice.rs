//! Splicing a menu row into a talk menu state group: one more
//! `AddTalkListData(index, message_id, -1)` row in the menu state and its
//! dispatch transition `GetTalkListEntryResult() == index` in the dispatch
//! state, placed before the default `if 1` fallback so the numeric row checks
//! keep their precedence.

use vstd::prelude::*;
use vstd::slice::slice_to_vec;
use crate::esd::{
    Event, State, StateGroup, Transition, add_talk_list_data, arg_int, event_arg_int,
    ezstate_int_value, get_ezstate_int_value, int_expr, is_sort_chest_event,
    is_talk_list_result_transition, lemma_int_expr_value, make_int_expression,
    make_talk_list_result_expression, spec_is_sort_chest_event,
    spec_is_talk_list_result_transition, talk_list_result_expr,
};

verus! {

/// Which entry event marks the menu state that receives the new row.
#[derive(Clone, Copy, PartialEq, Eq, Structural, Debug)]
pub enum SpliceAnchor {
    /// The grace menu's "Sort Chest" row.
    SortChestRow,
    /// Any plain `AddTalkListData` row (e.g. the Roundtable Hold mirror menu).
    TalkListRow,
}

pub open spec fn anchor_matches(anchor: SpliceAnchor, e: Event) -> bool {
    match anchor {
        SpliceAnchor::SortChestRow => spec_is_sort_chest_event(e),
        SpliceAnchor::TalkListRow => e.command == add_talk_list_data(),
    }
}

pub open spec fn state_has_anchor(s: State, anchor: SpliceAnchor) -> bool {
    exists|j: int| 0 <= j < s.entry_events@.len() && #[trigger] anchor_matches(anchor, s.entry_events@[j])
}

/// `i` is the last state holding an anchor event.
pub open spec fn is_menu_state(g: StateGroup, anchor: SpliceAnchor, i: int) -> bool {
    &&& 0 <= i < g.states@.len()
    &&& state_has_anchor(g.states@[i], anchor)
    &&& forall|i2: int| i < i2 < g.states@.len() ==> !#[trigger] state_has_anchor(g.states@[i2], anchor)
}

pub open spec fn state_has_dispatch(s: State) -> bool {
    exists|j: int|
        0 <= j < s.transitions@.len() && #[trigger] spec_is_talk_list_result_transition(s.transitions@[j])
}

/// `i` is the first state with a row-dispatch transition.
pub open spec fn is_dispatch_state(g: StateGroup, i: int) -> bool {
    &&& 0 <= i < g.states@.len()
    &&& state_has_dispatch(g.states@[i])
    &&& forall|i2: int| 0 <= i2 < i ==> !#[trigger] state_has_dispatch(g.states@[i2])
}

/// Transition `k` of `ts` is the first constant-true (`if 1`) transition.
pub open spec fn is_true_evaluator(t: Transition) -> bool {
    ezstate_int_value(t.evaluator@) == 1
}

/// `k` is where a new row check goes: before the first `if 1` fallback, or at
/// the end when there is none.
pub open spec fn is_insert_point(ts: Seq<Transition>, k: int) -> bool {
    &&& 0 <= k <= ts.len()
    &&& forall|k2: int| 0 <= k2 < k ==> !#[trigger] is_true_evaluator(ts[k2])
    &&& k < ts.len() ==> is_true_evaluator(ts[k])
}

/// An `AddTalkListData` row in the group already shows `message_id`.
pub open spec fn row_present(g: StateGroup, message_id: i32) -> bool {
    exists|i: int, j: int|
        0 <= i < g.states@.len() && 0 <= j < g.states@[i].entry_events@.len() && #[trigger] is_row_of(
            g.states@[i].entry_events@[j],
            message_id,
        )
}

pub open spec fn is_row_of(e: Event, message_id: i32) -> bool {
    e.command == add_talk_list_data() && arg_int(e, 1) == message_id
}

/// Where the new row and its dispatch transition go.
#[derive(Clone, Copy, PartialEq, Eq, Structural, Debug)]
pub struct SplicePlan {
    pub menu_state: usize,
    pub dispatch_state: usize,
    pub insert_at: usize,
}

/// `p` places the row in group `g`.
pub open spec fn valid_plan(g: StateGroup, anchor: SpliceAnchor, p: SplicePlan) -> bool {
    &&& is_menu_state(g, anchor, p.menu_state as int)
    &&& is_dispatch_state(g, p.dispatch_state as int)
    &&& is_insert_point(g.states@[p.dispatch_state as int].transitions@, p.insert_at as int)
}

/// `e` is the new row `AddTalkListData(index, message_id, -1)`.
pub open spec fn is_new_row(e: Event, index: i32, message_id: i32) -> bool {
    &&& e.command == add_talk_list_data()
    &&& e.args@.len() == 3
    &&& e.args@[0]@ == int_expr(index)
    &&& e.args@[1]@ == int_expr(message_id)
    &&& e.args@[2]@ == int_expr(-1i32)
}

/// `t` dispatches row `index` to `target`.
pub open spec fn is_row_dispatch(t: Transition, index: i32, target: u64) -> bool {
    &&& t.target == target
    &&& t.sub_transitions@.len() == 0
    &&& t.evaluator@ == talk_list_result_expr(index)
}

/// `new` is `old` plus the row `(index, message_id)` dispatching to `target`,
/// placed as `p` says; nothing else changes.
pub open spec fn spliced(
    new: StateGroup,
    old: StateGroup,
    p: SplicePlan,
    index: i32,
    message_id: i32,
    target: u64,
) -> bool {
    let m = p.menu_state as int;
    let d = p.dispatch_state as int;
    let k = p.insert_at as int;
    let oe = old.states@[m].entry_events@;
    let ne = new.states@[m].entry_events@;
    let ot = old.states@[d].transitions@;
    let nt = new.states@[d].transitions@;
    &&& new.id == old.id
    &&& new.initial_state == old.initial_state
    &&& new.states@.len() == old.states@.len()
    &&& forall|i: int| 0 <= i < old.states@.len() && i != m && i != d ==> #[trigger] new.states@[i] == old.states@[i]
    &&& new.states@[m].addr == old.states@[m].addr
    &&& new.states@[d].addr == old.states@[d].addr
    &&& new.states@[m].id == old.states@[m].id
    &&& new.states@[d].id == old.states@[d].id
    &&& new.states@[m].exit_events == old.states@[m].exit_events
    &&& new.states@[d].exit_events == old.states@[d].exit_events
    &&& ne.len() == oe.len() + 1
    &&& forall|j: int| 0 <= j < oe.len() ==> #[trigger] ne[j] == oe[j]
    &&& is_new_row(ne[oe.len() as int], index, message_id)
    &&& nt.len() == ot.len() + 1
    &&& forall|j: int| 0 <= j < k ==> #[trigger] nt[j] == ot[j]
    &&& is_row_dispatch(nt[k], index, target)
    &&& forall|j: int| k < j < nt.len() ==> #[trigger] nt[j] == ot[j - 1]
    &&& m != d ==> new.states@[m].transitions == old.states@[m].transitions
    &&& m != d ==> new.states@[d].entry_events == old.states@[d].entry_events
}

pub fn anchor_event_matches(anchor: SpliceAnchor, event: &Event) -> (r: bool)
    ensures
        r == anchor_matches(anchor, *event),
{
    match anchor {
        SpliceAnchor::SortChestRow => is_sort_chest_event(event),
        SpliceAnchor::TalkListRow => event.command == add_talk_list_data(),
    }
}

/// Whether an `AddTalkListData` row of the group already shows `message_id`.
pub fn has_row_message(group: &StateGroup, message_id: i32) -> (r: bool)
    ensures
        r == row_present(*group, message_id),
{
    for i in 0..group.states.len()
        invariant
            forall|a: int, b: int|
                0 <= a < i && 0 <= b < group.states@[a].entry_events@.len() ==> !#[trigger] is_row_of(
                    group.states@[a].entry_events@[b],
                    message_id,
                ),
    {
        let state = &group.states[i];
        for j in 0..state.entry_events.len()
            invariant
                0 <= i < group.states@.len(),
                state == group.states@[i as int],
                forall|a: int, b: int|
                    0 <= a < i && 0 <= b < group.states@[a].entry_events@.len() ==> !#[trigger] is_row_of(
                        group.states@[a].entry_events@[b],
                        message_id,
                    ),
                forall|b: int| 0 <= b < j ==> !#[trigger] is_row_of(state.entry_events@[b], message_id),
        {
            let e = &state.entry_events[j];
            if e.command == add_talk_list_data() && event_arg_int(e, 1) == message_id {
                assert(is_row_of(group.states@[i as int].entry_events@[j as int], message_id));
                return true;
            }
        }
    }
    false
}

fn state_anchor(state: &State, anchor: SpliceAnchor) -> (r: bool)
    ensures
        r == state_has_anchor(*state, anchor),
{
    for j in 0..state.entry_events.len()
        invariant
            forall|b: int| 0 <= b < j ==> !#[trigger] anchor_matches(anchor, state.entry_events@[b]),
    {
        if anchor_event_matches(anchor, &state.entry_events[j]) {
            return true;
        }
    }
    false
}

pub fn state_dispatch(state: &State) -> (r: bool)
    ensures
        r == state_has_dispatch(*state),
{
    for j in 0..state.transitions.len()
        invariant
            forall|b: int|
                0 <= b < j ==> !#[trigger] spec_is_talk_list_result_transition(state.transitions@[b]),
    {
        if is_talk_list_result_transition(&state.transitions[j]) {
            return true;
        }
    }
    false
}

/// Index of the first `if 1` transition, or the length when there is none.
pub fn find_insert_point(transitions: &Vec<Transition>) -> (r: usize)
    ensures
        is_insert_point(transitions@, r as int),
{
    for i in 0..transitions.len()
        invariant
            forall|k2: int| 0 <= k2 < i ==> !#[trigger] is_true_evaluator(transitions@[k2]),
    {
        if get_ezstate_int_value(transitions[i].evaluator.as_slice()) == 1 {
            return i;
        }
    }
    transitions.len()
}

/// Decides where the row goes: `None` when a row with `message_id` already
/// exists, or when the group has no anchored menu state or no dispatch state.
pub fn plan_splice(group: &StateGroup, anchor: SpliceAnchor, message_id: i32) -> (r: Option<SplicePlan>)
    ensures
        r matches Some(p) ==> !row_present(*group, message_id) && valid_plan(*group, anchor, p),
        r is None ==> row_present(*group, message_id) || (forall|i: int|
            0 <= i < group.states@.len() ==> !#[trigger] state_has_anchor(group.states@[i], anchor))
            || (forall|i: int| 0 <= i < group.states@.len() ==> !#[trigger] state_has_dispatch(group.states@[i])),
{
    if has_row_message(group, message_id) {
        return None;
    }
    let mut menu_state: Option<usize> = None;
    let mut dispatch_state: Option<usize> = None;
    for i in 0..group.states.len()
        invariant
            menu_state matches Some(m) ==> m < i && state_has_anchor(group.states@[m as int], anchor)
                && forall|i2: int| m < i2 < i ==> !#[trigger] state_has_anchor(group.states@[i2], anchor),
            menu_state is None ==> forall|i2: int| 0 <= i2 < i ==> !#[trigger] state_has_anchor(group.states@[i2], anchor),
            dispatch_state matches Some(d) ==> is_dispatch_state(*group, d as int) && d < i,
            dispatch_state is None ==> forall|i2: int| 0 <= i2 < i ==> !#[trigger] state_has_dispatch(group.states@[i2]),
    {
        if state_anchor(&group.states[i], anchor) {
            menu_state = Some(i);
        }
        if dispatch_state.is_none() && state_dispatch(&group.states[i]) {
            dispatch_state = Some(i);
        }
    }
    match (menu_state, dispatch_state) {
        (Some(m), Some(d)) => {
            let k = find_insert_point(&group.states[d].transitions);
            Some(SplicePlan { menu_state: m, dispatch_state: d, insert_at: k })
        },
        _ => None,
    }
}

/// The row `AddTalkListData(index, message_id, -1)`.
pub fn new_row_event(index: i32, message_id: i32) -> (e: Event)
    ensures
        is_new_row(e, index, message_id),
{
    let a0 = slice_to_vec(&make_int_expression(index));
    let a1 = slice_to_vec(&make_int_expression(message_id));
    let a2 = slice_to_vec(&make_int_expression(-1));
    let mut args: Vec<Vec<u8>> = Vec::new();
    args.push(a0);
    args.push(a1);
    args.push(a2);
    Event { command: add_talk_list_data(), args }
}

/// The dispatch transition `GetTalkListEntryResult() == index` to `target`.
pub fn new_row_dispatch(index: i32, target: u64) -> (t: Transition)
    ensures
        is_row_dispatch(t, index, target),
{
    Transition {
        target,
        sub_transitions: Vec::new(),
        evaluator: slice_to_vec(&make_talk_list_result_expression(index)),
    }
}

/// Adds a menu row `(option_index, message_id)` opening `target_state` to the
/// anchored menu state and inserts its dispatch transition before the default
/// `if 1` fallback of the dispatch state. Returns whether the group was
/// patched; a row already showing `message_id` makes the call a no-op.
pub fn splice_option_anchored(
    group: &mut StateGroup,
    anchor: SpliceAnchor,
    option_index: i32,
    message_id: i32,
    target_state: u64,
) -> (r: bool)
    ensures
        r ==> exists|p: SplicePlan|
            valid_plan(*old(group), anchor, p) && spliced(
                *final(group),
                *old(group),
                p,
                option_index,
                message_id,
                target_state,
            ),
        r ==> !row_present(*old(group), message_id),
        !r ==> *final(group) == *old(group),
        !r ==> row_present(*old(group), message_id) || (forall|i: int|
            0 <= i < old(group).states@.len() ==> !#[trigger] state_has_anchor(old(group).states@[i], anchor))
            || (forall|i: int|
            0 <= i < old(group).states@.len() ==> !#[trigger] state_has_dispatch(old(group).states@[i])),
{
    let p = match plan_splice(group, anchor, message_id) {
        Some(p) => p,
        None => return false,
    };
    let ghost g0 = *group;
    let event = new_row_event(option_index, message_id);
    let transition = new_row_dispatch(option_index, target_state);
    group.states[p.menu_state].entry_events.push(event);
    group.states[p.dispatch_state].transitions.insert(p.insert_at, transition);
    proof {
        let m = p.menu_state as int;
        let d = p.dispatch_state as int;
        let k = p.insert_at as int;
        assert(spliced(*group, g0, p, option_index, message_id, target_state));
    }
    true
}

/// After a successful splice the row is present, so splicing the same message
/// again changes nothing.
pub proof fn law_splice_idempotent(
    new: StateGroup,
    old: StateGroup,
    p: SplicePlan,
    index: i32,
    message_id: i32,
    target: u64,
)
    requires
        valid_plan(old, SpliceAnchor::SortChestRow, p) || valid_plan(old, SpliceAnchor::TalkListRow, p),
        spliced(new, old, p, index, message_id, target),
    ensures
        row_present(new, message_id),
{
    let m = p.menu_state as int;
    let j = old.states@[m].entry_events@.len() as int;
    let e = new.states@[m].entry_events@[j];
    lemma_int_expr_value(message_id);
    assert(arg_int(e, 1) == message_id);
    assert(is_row_of(new.states@[m].entry_events@[j], message_id));
}

} // verus!

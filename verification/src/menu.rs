//! Talk-list submenus built at run time: the menu state whose entry events
//! rebuild the row list, the branch state that dispatches on the selected
//! row, one-shot action states, yes/no dialog states, and the registry that
//! maps action states to the callbacks they run.

use vstd::prelude::*;
use vstd::slice::slice_to_vec;
use crate::esd::{
    add_talk_list_data, clear_talk_list_data, close_shop_message, int_expr, make_int_expression,
    make_talk_list_result_expression, open_generic_dialog, show_shop_message, talk_list_result_expr,
    Command, Event, State, Transition, TALK_MENU_CLOSED_EXPR, TRUE_EXPR,
};

verus! {

/// One row of a submenu: its index (the value `GetTalkListEntryResult`
/// reports when it is picked), its message id, whether it is the default
/// (cancel) row, and the action it runs, by id, if any.
#[derive(Clone, Copy, Debug)]
pub struct MenuRow {
    pub index: i32,
    pub message_id: i32,
    pub is_default: bool,
    pub action: Option<u64>,
}

/// The arguments `index, message_id, -1` of a row's `AddTalkListData`.
pub open spec fn row_args(r: MenuRow) -> Seq<Seq<u8>> {
    seq![int_expr(r.index), int_expr(r.message_id), int_expr(-1i32)]
}

/// The evaluator of a row's transition: constant true for the default row
/// (so backing out of the menu takes it too), else
/// `GetTalkListEntryResult() == index`.
pub open spec fn row_evaluator(r: MenuRow) -> Seq<u8> {
    if r.is_default {
        TRUE_EXPR@
    } else {
        talk_list_result_expr(r.index)
    }
}

/// Where a row returns to: `action_return` for an action row when one is
/// given (non-zero), `ret` otherwise.
pub open spec fn row_return(r: MenuRow, ret: u64, action_return: u64) -> u64 {
    if r.action is Some && action_return != 0 {
        action_return
    } else {
        ret
    }
}

/// `e` is the event `command()` with argument expressions `args`.
pub open spec fn is_event(e: Event, command: Command, args: Seq<Seq<u8>>) -> bool {
    &&& e.command == command
    &&& e.args@.len() == args.len()
    &&& forall|j: int| 0 <= j < args.len() ==> #[trigger] e.args@[j]@ == args[j]
}

/// `t` goes straight to `target` under `evaluator`, without sub-transitions.
pub open spec fn is_plain_transition(t: Transition, target: u64, evaluator: Seq<u8>) -> bool {
    &&& t.target == target
    &&& t.sub_transitions@.len() == 0
    &&& t.evaluator@ == evaluator
}

/// `s` is a one-shot action state at `addr`: no events, and one constant-true
/// transition to `ret`.
pub open spec fn is_action_state(s: State, addr: u64, ret: u64) -> bool {
    &&& s.addr == addr
    &&& s.id == 0
    &&& s.transitions@.len() == 1
    &&& is_plain_transition(s.transitions@[0], ret, TRUE_EXPR@)
    &&& s.entry_events@.len() == 0
    &&& s.exit_events@.len() == 0
}

/// A copy of a byte expression as a vector.
fn expr_vec(b: &[u8]) -> (r: Vec<u8>)
    ensures
        r@ == b@,
{
    slice_to_vec(b)
}

/// The one-shot action state at `addr`, returning to `return_state`.
pub fn action_state(addr: u64, return_state: u64) -> (s: State)
    ensures
        is_action_state(s, addr, return_state),
{
    let mut transitions: Vec<Transition> = Vec::new();
    transitions.push(
        Transition {
            target: return_state,
            sub_transitions: Vec::new(),
            evaluator: expr_vec(&TRUE_EXPR),
        },
    );
    State { addr, id: 0, transitions, entry_events: Vec::new(), exit_events: Vec::new() }
}

/// The callbacks of mod-owned action states, by state address.
pub struct ActionRegistry {
    pub entries: Vec<(u64, u64)>,
}

/// The action registered first for the state at `addr`, if any.
pub open spec fn registered_action(es: Seq<(u64, u64)>, addr: u64) -> Option<u64> {
    if exists|i: int| 0 <= i < es.len() && es[i].0 == addr {
        let i = choose|i: int|
            0 <= i < es.len() && es[i].0 == addr && forall|k: int| 0 <= k < i ==> es[k].0 != addr;
        Some(es[i].1)
    } else {
        None
    }
}

proof fn lemma_registered_action(es: Seq<(u64, u64)>, addr: u64, i: int)
    requires
        0 <= i < es.len(),
        es[i].0 == addr,
        forall|k: int| 0 <= k < i ==> es[k].0 != addr,
    ensures
        registered_action(es, addr) == Some(es[i].1),
{
    let j = choose|j: int|
        0 <= j < es.len() && es[j].0 == addr && forall|k: int| 0 <= k < j ==> es[k].0 != addr;
    assert(exists|j: int| 0 <= j < es.len() && es[j].0 == addr);
    if j < i {
        assert(es[j].0 != addr);
    }
    if i < j {
        assert(es[i].0 != addr);
    }
}

impl ActionRegistry {
    pub fn new() -> (r: Self)
        ensures
            r.entries@.len() == 0,
    {
        ActionRegistry { entries: Vec::new() }
    }

    /// Records that entering the state at `state` runs `action`.
    pub fn register_action(&mut self, state: u64, action: u64)
        ensures
            final(self).entries@ == old(self).entries@.push((state, action)),
    {
        self.entries.push((state, action));
    }

    /// The action to run after the state machine entered the state at
    /// `state`: the first one registered for it.
    pub fn action_for(&self, state: u64) -> (r: Option<u64>)
        ensures
            r == registered_action(self.entries@, state),
    {
        let n = self.entries.len();
        for i in 0..n
            invariant
                n == self.entries@.len(),
                forall|k: int| 0 <= k < i ==> self.entries@[k].0 != state,
        {
            if self.entries[i].0 == state {
                proof {
                    lemma_registered_action(self.entries@, state, i as int);
                }
                return Some(self.entries[i].1);
            }
        }
        None
    }
}

/// An action state always runs the action registered for it when the
/// registry had none for its address before.
pub proof fn law_registered_action_found(es: Seq<(u64, u64)>, addr: u64, action: u64)
    requires
        registered_action(es, addr) is None,
    ensures
        registered_action(es.push((addr, action)), addr) == Some(action),
{
    let n = es.push((addr, action));
    assert forall|k: int| 0 <= k < es.len() implies n[k].0 != addr by {
        assert(n[k] == es[k]);
        if es[k].0 == addr {
            assert(exists|i: int| 0 <= i < es.len() && es[i].0 == addr);
        }
    }
    lemma_registered_action(n, addr, es.len() as int);
}

/// Builds a one-shot state at `addr` that runs `action` when the state
/// machine enters it and then goes to `return_state`; the action is
/// registered for the state.
pub fn make_action_state(registry: &mut ActionRegistry, action: u64, return_state: u64, addr: u64) -> (s: State)
    ensures
        is_action_state(s, addr, return_state),
        final(registry).entries@ == old(registry).entries@.push((addr, action)),
{
    let s = action_state(addr, return_state);
    registry.register_action(addr, action);
    s
}

/// Where one menu's states live: its menu and branch states, and an
/// action-state address per row.
pub struct MenuAddrs {
    pub menu: u64,
    pub branch: u64,
    pub actions: Vec<u64>,
}

/// A linked submenu: its menu state, its branch state and the action states
/// of its action rows (in row order).
pub struct LinkedSubMenu {
    pub state: State,
    pub branch_state: State,
    pub action_states: Vec<State>,
}

/// Where row `k` of `rows` leads: its action state when it has an action,
/// else the state it returns to.
pub open spec fn row_target(rows: Seq<MenuRow>, k: int, action_addrs: Seq<u64>, ret: u64, action_return: u64) -> u64 {
    if rows[k].action is Some {
        action_addrs[k]
    } else {
        row_return(rows[k], ret, action_return)
    }
}

/// The action rows among the first `n` rows, in row order: each one's
/// action-state address, action, and the state it returns to.
pub open spec fn action_entries(
    rows: Seq<MenuRow>,
    action_addrs: Seq<u64>,
    ret: u64,
    action_return: u64,
    n: int,
) -> Seq<(u64, u64, u64)>
    decreases n,
{
    if n <= 0 {
        Seq::empty()
    } else {
        let prev = action_entries(rows, action_addrs, ret, action_return, n - 1);
        match rows[n - 1].action {
            Some(a) => prev.push((action_addrs[n - 1], a, row_return(rows[n - 1], ret, action_return))),
            None => prev,
        }
    }
}

/// The `(state address, action)` registrations of action entries.
pub open spec fn registrations(es: Seq<(u64, u64, u64)>) -> Seq<(u64, u64)> {
    es.map_values(|e: (u64, u64, u64)| (e.0, e.1))
}

/// The menu state of a submenu: its entry events close any shop message,
/// clear the talk list, add one row per menu row and show the list; its one
/// transition goes to the branch state once the talk menu has closed.
pub open spec fn is_menu_state(s: State, rows: Seq<MenuRow>, menu_addr: u64, branch_addr: u64) -> bool {
    let ev = s.entry_events@;
    &&& s.addr == menu_addr
    &&& s.id == 0
    &&& ev.len() == rows.len() + 3
    &&& is_event(ev[0], close_shop_message(), Seq::empty())
    &&& is_event(ev[1], clear_talk_list_data(), Seq::empty())
    &&& forall|k: int| 0 <= k < rows.len() ==> is_event(#[trigger] ev[k + 2], add_talk_list_data(), row_args(rows[k]))
    &&& is_event(ev[rows.len() + 2int], show_shop_message(), seq![int_expr(0i32)])
    &&& s.transitions@.len() == 1
    &&& is_plain_transition(s.transitions@[0], branch_addr, TALK_MENU_CLOSED_EXPR@)
    &&& s.exit_events@.len() == 0
}

/// The branch state of a submenu: one transition per row, in row order.
pub open spec fn is_branch_state(
    s: State,
    rows: Seq<MenuRow>,
    branch_addr: u64,
    action_addrs: Seq<u64>,
    ret: u64,
    action_return: u64,
) -> bool {
    &&& s.addr == branch_addr
    &&& s.id == 0
    &&& s.transitions@.len() == rows.len()
    &&& forall|k: int|
        0 <= k < rows.len() ==> is_plain_transition(
            #[trigger] s.transitions@[k],
            row_target(rows, k, action_addrs, ret, action_return),
            row_evaluator(rows[k]),
        )
    &&& s.entry_events@.len() == 0
    &&& s.exit_events@.len() == 0
}

/// The event `command()` without arguments.
fn bare_event(command: Command) -> (e: Event)
    ensures
        is_event(e, command, Seq::empty()),
{
    Event { command, args: Vec::new() }
}

/// The `AddTalkListData` row event of `row`.
fn row_event(row: MenuRow) -> (e: Event)
    ensures
        is_event(e, add_talk_list_data(), row_args(row)),
{
    let mut args: Vec<Vec<u8>> = Vec::new();
    args.push(expr_vec(&make_int_expression(row.index)));
    args.push(expr_vec(&make_int_expression(row.message_id)));
    args.push(expr_vec(&make_int_expression(-1)));
    Event { command: add_talk_list_data(), args }
}

/// `r` is the submenu of `rows` as [`link`] builds it.
pub open spec fn is_linked(
    r: LinkedSubMenu,
    rows: Seq<MenuRow>,
    menu_addr: u64,
    branch_addr: u64,
    action_addrs: Seq<u64>,
    ret: u64,
    action_return: u64,
) -> bool {
    let es = action_entries(rows, action_addrs, ret, action_return, rows.len() as int);
    &&& is_menu_state(r.state, rows, menu_addr, branch_addr)
    &&& is_branch_state(r.branch_state, rows, branch_addr, action_addrs, ret, action_return)
    &&& r.action_states@.len() == es.len()
    &&& forall|k: int| 0 <= k < r.action_states@.len() ==> is_action_state(#[trigger] r.action_states@[k], es[k].0, es[k].2)
}

/// Links a submenu made of `rows`: the menu state at `menu_addr`, the branch
/// state at `branch_addr`, and for each action row an action state at the
/// row's address in `action_addrs`, registered with its action. Rows without
/// an action go to `return_state`; action rows return, after their action, to
/// `action_return_state` when it is non-zero (pass the menu state itself to
/// stay in the submenu), else to `return_state`.
pub fn link(
    rows: &Vec<MenuRow>,
    menu_addr: u64,
    branch_addr: u64,
    action_addrs: &Vec<u64>,
    return_state: u64,
    action_return_state: u64,
    registry: &mut ActionRegistry,
) -> (r: LinkedSubMenu)
    requires
        action_addrs@.len() == rows@.len(),
        rows@.len() + 3 <= usize::MAX,
    ensures
        is_menu_state(r.state, rows@, menu_addr, branch_addr),
        is_branch_state(r.branch_state, rows@, branch_addr, action_addrs@, return_state, action_return_state),
        final(registry).entries@ == old(registry).entries@ + registrations(
            action_entries(rows@, action_addrs@, return_state, action_return_state, rows@.len() as int),
        ),
        r.action_states@.len() == action_entries(
            rows@,
            action_addrs@,
            return_state,
            action_return_state,
            rows@.len() as int,
        ).len(),
        forall|k: int|
            0 <= k < r.action_states@.len() ==> {
                let e = action_entries(rows@, action_addrs@, return_state, action_return_state, rows@.len() as int)[k];
                is_action_state(#[trigger] r.action_states@[k], e.0, e.2)
            },
{
    let n = rows.len();
    let mut branch_transitions: Vec<Transition> = Vec::new();
    let mut action_states: Vec<State> = Vec::new();
    let ghost start = registry.entries@;
    for k in 0..n
        invariant
            n == rows@.len(),
            action_addrs@.len() == n,
            registry.entries@ == start + registrations(
                action_entries(rows@, action_addrs@, return_state, action_return_state, k as int),
            ),
            branch_transitions@.len() == k,
            forall|j: int|
                0 <= j < k ==> is_plain_transition(
                    #[trigger] branch_transitions@[j],
                    row_target(rows@, j, action_addrs@, return_state, action_return_state),
                    row_evaluator(rows@[j]),
                ),
            action_states@.len() == action_entries(
                rows@,
                action_addrs@,
                return_state,
                action_return_state,
                k as int,
            ).len(),
            forall|j: int|
                0 <= j < action_states@.len() ==> {
                    let e = action_entries(rows@, action_addrs@, return_state, action_return_state, k as int)[j];
                    is_action_state(#[trigger] action_states@[j], e.0, e.2)
                },
    {
        let row = rows[k];
        let ghost es = action_entries(rows@, action_addrs@, return_state, action_return_state, k as int);
        let ghost es2 = action_entries(rows@, action_addrs@, return_state, action_return_state, k + 1);
        let back = if row.action.is_some() && action_return_state != 0 {
            action_return_state
        } else {
            return_state
        };
        let target = match row.action {
            Some(a) => {
                let s = make_action_state(registry, a, back, action_addrs[k]);
                action_states.push(s);
                proof {
                    assert(es2 == es.push((action_addrs@[k as int], a, back)));
                    assert(registrations(es2) =~= registrations(es).push((action_addrs@[k as int], a)));
                    assert(registry.entries@ =~= start + registrations(es2));
                    assert forall|j: int| 0 <= j < action_states@.len() implies {
                        let e = es2[j];
                        is_action_state(#[trigger] action_states@[j], e.0, e.2)
                    } by {
                        if j < es.len() {
                            assert(es2[j] == es[j]);
                        }
                    }
                }
                action_addrs[k]
            },
            None => back,
        };
        let evaluator = if row.is_default {
            expr_vec(&TRUE_EXPR)
        } else {
            expr_vec(&make_talk_list_result_expression(row.index))
        };
        branch_transitions.push(Transition { target, sub_transitions: Vec::new(), evaluator });
    }
    let mut events: Vec<Event> = Vec::new();
    events.push(bare_event(close_shop_message()));
    events.push(bare_event(clear_talk_list_data()));
    for k in 0..n
        invariant
            n == rows@.len(),
            events@.len() == k + 2,
            is_event(events@[0], close_shop_message(), Seq::empty()),
            is_event(events@[1], clear_talk_list_data(), Seq::empty()),
            forall|j: int| 0 <= j < k ==> is_event(#[trigger] events@[j + 2], add_talk_list_data(), row_args(rows@[j])),
    {
        events.push(row_event(rows[k]));
    }
    let mut show_args: Vec<Vec<u8>> = Vec::new();
    show_args.push(expr_vec(&make_int_expression(0)));
    events.push(Event { command: show_shop_message(), args: show_args });
    let mut menu_transitions: Vec<Transition> = Vec::new();
    menu_transitions.push(
        Transition {
            target: branch_addr,
            sub_transitions: Vec::new(),
            evaluator: expr_vec(&TALK_MENU_CLOSED_EXPR),
        },
    );
    let state = State {
        addr: menu_addr,
        id: 0,
        transitions: menu_transitions,
        entry_events: events,
        exit_events: Vec::new(),
    };
    let branch_state = State {
        addr: branch_addr,
        id: 0,
        transitions: branch_transitions,
        entry_events: Vec::new(),
        exit_events: Vec::new(),
    };
    LinkedSubMenu { state, branch_state, action_states }
}

/// Links a submenu whose action rows return to the submenu itself, so the
/// player stays inside it after a toggle.
pub fn link_from_rows_self_return(
    rows: &Vec<MenuRow>,
    menu_addr: u64,
    branch_addr: u64,
    action_addrs: &Vec<u64>,
    return_state: u64,
    registry: &mut ActionRegistry,
) -> (r: LinkedSubMenu)
    requires
        action_addrs@.len() == rows@.len(),
        rows@.len() + 3 <= usize::MAX,
    ensures
        is_menu_state(r.state, rows@, menu_addr, branch_addr),
        is_branch_state(r.branch_state, rows@, branch_addr, action_addrs@, return_state, menu_addr),
        final(registry).entries@ == old(registry).entries@ + registrations(
            action_entries(rows@, action_addrs@, return_state, menu_addr, rows@.len() as int),
        ),
        r.action_states@.len() == action_entries(
            rows@,
            action_addrs@,
            return_state,
            menu_addr,
            rows@.len() as int,
        ).len(),
        forall|k: int|
            0 <= k < r.action_states@.len() ==> {
                let e = action_entries(rows@, action_addrs@, return_state, menu_addr, rows@.len() as int)[k];
                is_action_state(#[trigger] r.action_states@[k], e.0, e.2)
            },
{
    link(rows, menu_addr, branch_addr, action_addrs, return_state, menu_addr, registry)
}

/// Points row `index` of a linked submenu at `target_state` (to wire nested
/// submenus); an index past the last row changes nothing.
pub fn set_option_target(menu: &mut LinkedSubMenu, index: usize, target_state: u64)
    ensures
        final(menu).state == old(menu).state,
        final(menu).action_states == old(menu).action_states,
        final(menu).branch_state.addr == old(menu).branch_state.addr,
        final(menu).branch_state.id == old(menu).branch_state.id,
        final(menu).branch_state.entry_events == old(menu).branch_state.entry_events,
        final(menu).branch_state.exit_events == old(menu).branch_state.exit_events,
        final(menu).branch_state.transitions@.len() == old(menu).branch_state.transitions@.len(),
        forall|k: int|
            0 <= k < old(menu).branch_state.transitions@.len() && k != index
                ==> #[trigger] final(menu).branch_state.transitions@[k] == old(menu).branch_state.transitions@[k],
        index < old(menu).branch_state.transitions@.len() ==> {
            let t = final(menu).branch_state.transitions@[index as int];
            let o = old(menu).branch_state.transitions@[index as int];
            &&& t.target == target_state
            &&& t.sub_transitions == o.sub_transitions
            &&& t.evaluator == o.evaluator
        },
{
    if index < menu.branch_state.transitions.len() {
        menu.branch_state.transitions[index].target = target_state;
    }
}

/// The OK branch condition `#B9 == 0` of a generic dialog.
pub open spec fn dialog_ok_expr() -> Seq<u8> {
    seq![0xb9u8, 0x40u8, 0x95u8, 0xa1u8]
}

/// The cancel branch condition `#B9 != #BA` of a generic dialog.
pub open spec fn dialog_cancel_expr() -> Seq<u8> {
    seq![0xb9u8, 0xbau8, 0x96u8, 0xa1u8]
}

/// `t` is a dialog branch: no direct target, the condition `evaluator`, and
/// one constant-true sub-transition to `target`.
pub open spec fn is_dialog_branch(t: Transition, evaluator: Seq<u8>, target: u64) -> bool {
    &&& t.target == 0
    &&& t.evaluator@ == evaluator
    &&& t.sub_transitions@.len() == 1
    &&& is_plain_transition(t.sub_transitions@[0], target, TRUE_EXPR@)
}

/// `s` is a yes/no confirmation dialog at `addr`, laid out like the game's
/// own: its entry opens the generic dialog with `message_id`, the OK branch
/// leads to `yes_target` and the cancel branch to `no_target`.
pub open spec fn is_yes_no_dialog(s: State, addr: u64, message_id: i32, yes_target: u64, no_target: u64) -> bool {
    &&& s.addr == addr
    &&& s.id == 0
    &&& s.entry_events@.len() == 1
    &&& is_event(s.entry_events@[0], open_generic_dialog(), seq![int_expr(message_id)])
    &&& s.transitions@.len() == 2
    &&& is_dialog_branch(s.transitions@[0], dialog_ok_expr(), yes_target)
    &&& is_dialog_branch(s.transitions@[1], dialog_cancel_expr(), no_target)
    &&& s.exit_events@.len() == 0
}

fn dialog_branch(evaluator: Vec<u8>, target: u64) -> (t: Transition)
    ensures
        t.target == 0,
        t.evaluator@ == evaluator@,
        t.sub_transitions@.len() == 1,
        is_plain_transition(t.sub_transitions@[0], target, TRUE_EXPR@),
{
    let mut subs: Vec<Transition> = Vec::new();
    subs.push(Transition { target, sub_transitions: Vec::new(), evaluator: expr_vec(&TRUE_EXPR) });
    Transition { target: 0, sub_transitions: subs, evaluator }
}

/// A yes/no confirmation dialog state at `addr`.
pub fn yes_no_dialog(message_id: i32, yes_target: u64, no_target: u64, addr: u64) -> (s: State)
    ensures
        is_yes_no_dialog(s, addr, message_id, yes_target, no_target),
{
    let mut args: Vec<Vec<u8>> = Vec::new();
    args.push(expr_vec(&make_int_expression(message_id)));
    let mut events: Vec<Event> = Vec::new();
    events.push(Event { command: open_generic_dialog(), args });
    let ok_expr: [u8; 4] = [0xb9, 0x40, 0x95, 0xa1];
    let cancel_expr: [u8; 4] = [0xb9, 0xba, 0x96, 0xa1];
    let ok = expr_vec(&ok_expr);
    let cancel = expr_vec(&cancel_expr);
    assert(ok@ =~= dialog_ok_expr());
    assert(cancel@ =~= dialog_cancel_expr());
    let mut transitions: Vec<Transition> = Vec::new();
    transitions.push(dialog_branch(ok, yes_target));
    transitions.push(dialog_branch(cancel, no_target));
    State { addr, id: 0, transitions, entry_events: events, exit_events: Vec::new() }
}

} // verus!

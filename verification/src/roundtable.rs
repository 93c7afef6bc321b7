//! "Roundtable at Home": a grace-menu entry opening a menu of the Roundtable
//! Hold services (Hewg's smithing and Ash of War duplication, Roderika's
//! spirit tuning, the Twin Maiden Husks' shop), each run by a one-shot command
//! state that returns to its submenu once the service's menu closes.

use vstd::prelude::*;
use vstd::slice::slice_to_vec;
use crate::esd::{
    combine_menu_flag_and_event_flag, int_expr, make_int_expression, make_menu_closed_expr,
    menu_closed_expr, open_buddy_upgrade_menu, open_enhance_shop, open_equipment_change_of_purpose_shop,
    open_regular_shop, open_sell_shop, add_talk_list_data, talk_list_result_expr, Command, Event, State, StateGroup, Transition,
};
use crate::menu::{
    row_args, is_event, is_menu_state, is_plain_transition, link, row_evaluator, set_option_target,
    ActionRegistry, LinkedSubMenu, MenuRow,
};
use crate::splice::{spliced, splice_option_anchored, state_has_anchor, state_has_dispatch, row_present, valid_plan, SpliceAnchor, SplicePlan};

verus! {

/// Grace-menu row index of the entry.
pub const OPTION_INDEX: i32 = 71;
/// Message of every Cancel row.
pub const MSG_CANCEL: i32 = 69_990_003;
/// Menu types whose closing ends a command state.
pub const MENU_TYPE_ENHANCE: i32 = 9;
pub const MENU_TYPE_AOW: i32 = 7;
pub const MENU_TYPE_BUDDY: i32 = 23;
pub const MENU_TYPE_SHOP: i32 = 5;
pub const MENU_TYPE_SELL: i32 = 6;
/// The Twin Maiden Husks' shop range.
pub const TMH_SHOP_BEGIN: i32 = 101800;
pub const TMH_SHOP_END: i32 = 101897;

/// The integer-expression arguments of a list of integers.
pub open spec fn int_args(vs: Seq<i32>) -> Seq<Seq<u8>> {
    vs.map_values(|v: i32| int_expr(v))
}

/// `s` is a one-shot command state at `addr`: on entry it runs the `prep`
/// commands with their integer arguments, then `command` with `args`; once
/// the menu of type `menu_type` has closed it goes to `ret`.
pub open spec fn is_command_state(
    s: State,
    addr: u64,
    prep: Seq<(Command, Seq<i32>)>,
    command: Command,
    args: Seq<i32>,
    menu_type: i32,
    ret: u64,
) -> bool {
    let ev = s.entry_events@;
    &&& s.addr == addr
    &&& s.id == 0
    &&& ev.len() == prep.len() + 1
    &&& forall|i: int| 0 <= i < prep.len() ==> is_event(#[trigger] ev[i], prep[i].0, int_args(prep[i].1))
    &&& is_event(ev[prep.len() as int], command, int_args(args))
    &&& s.transitions@.len() == 1
    &&& is_plain_transition(s.transitions@[0], ret, menu_closed_expr(menu_type))
    &&& s.exit_events@.len() == 0
}

/// The views of preparation commands.
pub open spec fn prep_view(prep: Seq<(Command, Vec<i32>)>) -> Seq<(Command, Seq<i32>)> {
    prep.map_values(|p: (Command, Vec<i32>)| (p.0, p.1@))
}

fn int_arg_exprs(vs: &Vec<i32>) -> (r: Vec<Vec<u8>>)
    ensures
        r@.len() == vs@.len(),
        forall|j: int| 0 <= j < vs@.len() ==> #[trigger] r@[j]@ == int_args(vs@)[j],
{
    let mut out: Vec<Vec<u8>> = Vec::new();
    for j in 0..vs.len()
        invariant
            out@.len() == j,
            forall|k: int| 0 <= k < j ==> #[trigger] out@[k]@ == int_args(vs@)[k],
    {
        out.push(slice_to_vec(&make_int_expression(vs[j])));
    }
    out
}

/// Builds the one-shot command state at `addr`.
pub fn make_command_state(
    prep: &Vec<(Command, Vec<i32>)>,
    command: Command,
    args: &Vec<i32>,
    menu_type: i32,
    return_state: u64,
    addr: u64,
) -> (s: State)
    requires
        menu_type + 64 <= i32::MAX,
    ensures
        is_command_state(s, addr, prep_view(prep@), command, args@, menu_type, return_state),
{
    let mut events: Vec<Event> = Vec::new();
    for i in 0..prep.len()
        invariant
            events@.len() == i,
            forall|k: int|
                0 <= k < i ==> is_event(#[trigger] events@[k], prep_view(prep@)[k].0, int_args(prep_view(prep@)[k].1)),
    {
        let a = int_arg_exprs(&prep[i].1);
        events.push(Event { command: prep[i].0, args: a });
    }
    events.push(Event { command, args: int_arg_exprs(args) });
    let mut transitions: Vec<Transition> = Vec::new();
    transitions.push(
        Transition {
            target: return_state,
            sub_transitions: Vec::new(),
            evaluator: slice_to_vec(&make_menu_closed_expr(menu_type)),
        },
    );
    State { addr, id: 0, transitions, entry_events: events, exit_events: Vec::new() }
}

/// The message ids of the entry and its rows.
#[derive(Clone, Copy, Debug)]
pub struct RoundtableMessages {
    pub roundtable: i32,
    pub hewg: i32,
    pub roderika: i32,
    pub tmh: i32,
    pub enhance: i32,
    pub aow: i32,
    pub spirit_tuning: i32,
    pub buy: i32,
    pub sell: i32,
}

/// Where the built states live.
#[derive(Clone, Copy, Debug)]
pub struct RoundtableAddrs {
    pub top: u64,
    pub top_branch: u64,
    pub hewg: u64,
    pub hewg_branch: u64,
    pub roderika: u64,
    pub roderika_branch: u64,
    pub tmh: u64,
    pub tmh_branch: u64,
    pub enhance: u64,
    pub aow: u64,
    pub buddy: u64,
    pub buy: u64,
    pub sell: u64,
}

/// The built menus and command states.
pub struct RoundtableMenus {
    pub top: LinkedSubMenu,
    pub hewg: LinkedSubMenu,
    pub roderika: LinkedSubMenu,
    pub tmh: LinkedSubMenu,
    pub enhance: State,
    pub aow: State,
    pub buddy: State,
    pub buy: State,
    pub sell: State,
}

pub open spec fn row(index: i32, message_id: i32) -> MenuRow {
    MenuRow { index, message_id, is_default: false, action: None }
}

pub open spec fn cancel_row() -> MenuRow {
    MenuRow { index: 99, message_id: MSG_CANCEL, is_default: true, action: None }
}

pub open spec fn top_rows(m: RoundtableMessages) -> Seq<MenuRow> {
    seq![row(1, m.hewg), row(2, m.roderika), row(3, m.tmh), cancel_row()]
}

pub open spec fn hewg_rows(m: RoundtableMessages) -> Seq<MenuRow> {
    seq![row(1, m.enhance), row(2, m.aow), cancel_row()]
}

pub open spec fn roderika_rows(m: RoundtableMessages) -> Seq<MenuRow> {
    seq![row(1, m.spirit_tuning), cancel_row()]
}

pub open spec fn tmh_rows(m: RoundtableMessages) -> Seq<MenuRow> {
    seq![row(1, m.buy), row(2, m.sell), cancel_row()]
}

/// `lm` is a submenu of `rows` at `menu_addr`/`branch_addr` whose row `k`
/// leads to `targets[k]`, without action states.
pub open spec fn is_menu_with_targets(
    lm: LinkedSubMenu,
    rows: Seq<MenuRow>,
    menu_addr: u64,
    branch_addr: u64,
    targets: Seq<u64>,
) -> bool {
    let b = lm.branch_state;
    &&& is_menu_state(lm.state, rows, menu_addr, branch_addr)
    &&& b.addr == branch_addr
    &&& b.id == 0
    &&& b.transitions@.len() == rows.len()
    &&& forall|k: int|
        0 <= k < rows.len() ==> is_plain_transition(#[trigger] b.transitions@[k], targets[k], row_evaluator(rows[k]))
    &&& b.entry_events@.len() == 0
    &&& b.exit_events@.len() == 0
    &&& lm.action_states@.len() == 0
}

/// Smithing's preparation: `CombineMenuFlagAndEventFlag(6001, 232..=235)`.
pub open spec fn enhance_prep() -> Seq<(Command, Seq<i32>)> {
    seq![
        (combine_menu_flag_and_event_flag(), seq![6001i32, 232i32]),
        (combine_menu_flag_and_event_flag(), seq![6001i32, 233i32]),
        (combine_menu_flag_and_event_flag(), seq![6001i32, 234i32]),
        (combine_menu_flag_and_event_flag(), seq![6001i32, 235i32]),
    ]
}

/// The Roundtable menus as built for grace menus whose initial state is
/// `initial`: the top menu (Hewg, Roderika, Twin Maiden Husks, Cancel back to
/// the grace menu), each service submenu returning to the top menu, and the
/// command states returning to their submenu.
pub open spec fn roundtable_menus(r: RoundtableMenus, m: RoundtableMessages, a: RoundtableAddrs, initial: u64) -> bool {
    &&& is_menu_with_targets(r.top, top_rows(m), a.top, a.top_branch, seq![a.hewg, a.roderika, a.tmh, initial])
    &&& is_menu_with_targets(r.hewg, hewg_rows(m), a.hewg, a.hewg_branch, seq![a.enhance, a.aow, a.top])
    &&& is_menu_with_targets(r.roderika, roderika_rows(m), a.roderika, a.roderika_branch, seq![a.buddy, a.top])
    &&& is_menu_with_targets(r.tmh, tmh_rows(m), a.tmh, a.tmh_branch, seq![a.buy, a.sell, a.top])
    &&& is_command_state(r.enhance, a.enhance, enhance_prep(), open_enhance_shop(), seq![0i32], MENU_TYPE_ENHANCE, a.hewg)
    &&& is_command_state(r.aow, a.aow, Seq::empty(), open_equipment_change_of_purpose_shop(), Seq::empty(), MENU_TYPE_AOW, a.hewg)
    &&& is_command_state(r.buddy, a.buddy, Seq::empty(), open_buddy_upgrade_menu(), Seq::empty(), MENU_TYPE_BUDDY, a.roderika)
    &&& is_command_state(r.buy, a.buy, Seq::empty(), open_regular_shop(), seq![TMH_SHOP_BEGIN, TMH_SHOP_END], MENU_TYPE_SHOP, a.tmh)
    &&& is_command_state(r.sell, a.sell, Seq::empty(), open_sell_shop(), seq![-1i32, -1i32], MENU_TYPE_SELL, a.tmh)
}

fn exec_row(index: i32, message_id: i32) -> (r: MenuRow)
    ensures
        r == row(index, message_id),
{
    MenuRow { index, message_id, is_default: false, action: None }
}

fn exec_cancel_row() -> (r: MenuRow)
    ensures
        r == cancel_row(),
{
    MenuRow { index: 99, message_id: MSG_CANCEL, is_default: true, action: None }
}

/// Links a submenu without action rows and points its rows at `targets`.
fn menu_with_targets(
    rows: &Vec<MenuRow>,
    menu_addr: u64,
    branch_addr: u64,
    ret: u64,
    targets: &Vec<u64>,
) -> (lm: LinkedSubMenu)
    requires
        targets@.len() == rows@.len(),
        1 <= rows@.len() < 16,
        forall|k: int| 0 <= k < rows@.len() ==> (#[trigger] rows@[k]).action is None,
        targets@.last() == ret,
    ensures
        is_menu_with_targets(lm, rows@, menu_addr, branch_addr, targets@),
{
    let mut registry = ActionRegistry::new();
    let mut dummy: Vec<u64> = Vec::new();
    for i in 0..rows.len()
        invariant
            dummy@.len() == i,
    {
        dummy.push(0);
    }
    let mut lm = link(rows, menu_addr, branch_addr, &dummy, ret, 0, &mut registry);
    proof {
        assert(crate::menu::action_entries(rows@, dummy@, ret, 0, rows@.len() as int).len() == 0) by {
            lemma_no_action_entries(rows@, dummy@, ret, rows@.len() as int);
        }
    }
    let n = rows.len();
    for k in 0..n - 1
        invariant
            n == rows@.len(),
            n == targets@.len(),
            n >= 1,
            is_menu_state(lm.state, rows@, menu_addr, branch_addr),
            lm.branch_state.addr == branch_addr,
            lm.branch_state.id == 0,
            lm.branch_state.transitions@.len() == n,
            forall|j: int| 0 <= j < k ==> is_plain_transition(#[trigger] lm.branch_state.transitions@[j], targets@[j], row_evaluator(rows@[j])),
            forall|j: int| k <= j < n ==> is_plain_transition(#[trigger] lm.branch_state.transitions@[j], ret, row_evaluator(rows@[j])),
            lm.branch_state.entry_events@.len() == 0,
            lm.branch_state.exit_events@.len() == 0,
            lm.action_states@.len() == 0,
    {
        set_option_target(&mut lm, k, targets[k]);
    }
    lm
}

proof fn lemma_no_action_entries(rows: Seq<MenuRow>, addrs: Seq<u64>, ret: u64, n: int)
    requires
        n <= rows.len(),
        forall|k: int| 0 <= k < rows.len() ==> (#[trigger] rows[k]).action is None,
    ensures
        crate::menu::action_entries(rows, addrs, ret, 0, n).len() == 0,
    decreases n,
{
    if n > 0 {
        lemma_no_action_entries(rows, addrs, ret, n - 1);
        assert(rows[n - 1].action is None);
    }
}

fn pair(x: i32, y: i32) -> (r: Vec<i32>)
    ensures
        r@ == seq![x, y],
{
    let mut v: Vec<i32> = Vec::new();
    v.push(x);
    v.push(y);
    assert(v@ =~= seq![x, y]);
    v
}

/// Builds the Roundtable menus for a grace menu whose initial state is
/// `initial`.
pub fn build_roundtable_menus(m: &RoundtableMessages, a: &RoundtableAddrs, initial: u64) -> (r: RoundtableMenus)
    ensures
        roundtable_menus(r, *m, *a, initial),
{
    let mut top_rows_v: Vec<MenuRow> = Vec::new();
    top_rows_v.push(exec_row(1, m.hewg));
    top_rows_v.push(exec_row(2, m.roderika));
    top_rows_v.push(exec_row(3, m.tmh));
    top_rows_v.push(exec_cancel_row());
    assert(top_rows_v@ =~= top_rows(*m));
    let mut hewg_rows_v: Vec<MenuRow> = Vec::new();
    hewg_rows_v.push(exec_row(1, m.enhance));
    hewg_rows_v.push(exec_row(2, m.aow));
    hewg_rows_v.push(exec_cancel_row());
    assert(hewg_rows_v@ =~= hewg_rows(*m));
    let mut roderika_rows_v: Vec<MenuRow> = Vec::new();
    roderika_rows_v.push(exec_row(1, m.spirit_tuning));
    roderika_rows_v.push(exec_cancel_row());
    assert(roderika_rows_v@ =~= roderika_rows(*m));
    let mut tmh_rows_v: Vec<MenuRow> = Vec::new();
    tmh_rows_v.push(exec_row(1, m.buy));
    tmh_rows_v.push(exec_row(2, m.sell));
    tmh_rows_v.push(exec_cancel_row());
    assert(tmh_rows_v@ =~= tmh_rows(*m));

    let mut enhance_prep_v: Vec<(Command, Vec<i32>)> = Vec::new();
    enhance_prep_v.push((combine_menu_flag_and_event_flag(), pair(6001, 232)));
    enhance_prep_v.push((combine_menu_flag_and_event_flag(), pair(6001, 233)));
    enhance_prep_v.push((combine_menu_flag_and_event_flag(), pair(6001, 234)));
    enhance_prep_v.push((combine_menu_flag_and_event_flag(), pair(6001, 235)));
    assert(prep_view(enhance_prep_v@) =~= enhance_prep());
    let mut zero: Vec<i32> = Vec::new();
    zero.push(0);
    let none_prep: Vec<(Command, Vec<i32>)> = Vec::new();
    let none_args: Vec<i32> = Vec::new();
    let mut shop_args: Vec<i32> = Vec::new();
    shop_args.push(TMH_SHOP_BEGIN);
    shop_args.push(TMH_SHOP_END);
    let mut sell_args: Vec<i32> = Vec::new();
    sell_args.push(-1);
    sell_args.push(-1);
    assert(prep_view(none_prep@) =~= Seq::<(Command, Seq<i32>)>::empty());
    assert(zero@ =~= seq![0i32]);
    assert(shop_args@ =~= seq![TMH_SHOP_BEGIN, TMH_SHOP_END]);
    assert(sell_args@ =~= seq![-1i32, -1i32]);
    assert(none_args@ =~= Seq::<i32>::empty());

    let enhance = make_command_state(&enhance_prep_v, open_enhance_shop(), &zero, MENU_TYPE_ENHANCE, a.hewg, a.enhance);
    let aow = make_command_state(&none_prep, open_equipment_change_of_purpose_shop(), &none_args, MENU_TYPE_AOW, a.hewg, a.aow);
    let buddy = make_command_state(&none_prep, open_buddy_upgrade_menu(), &none_args, MENU_TYPE_BUDDY, a.roderika, a.buddy);
    let buy = make_command_state(&none_prep, open_regular_shop(), &shop_args, MENU_TYPE_SHOP, a.tmh, a.buy);
    let sell = make_command_state(&none_prep, open_sell_shop(), &sell_args, MENU_TYPE_SELL, a.tmh, a.sell);

    let mut t_top: Vec<u64> = Vec::new();
    t_top.push(a.hewg);
    t_top.push(a.roderika);
    t_top.push(a.tmh);
    t_top.push(initial);
    let mut t_hewg: Vec<u64> = Vec::new();
    t_hewg.push(a.enhance);
    t_hewg.push(a.aow);
    t_hewg.push(a.top);
    let mut t_rod: Vec<u64> = Vec::new();
    t_rod.push(a.buddy);
    t_rod.push(a.top);
    let mut t_tmh: Vec<u64> = Vec::new();
    t_tmh.push(a.buy);
    t_tmh.push(a.sell);
    t_tmh.push(a.top);
    assert(t_top@ =~= seq![a.hewg, a.roderika, a.tmh, initial]);
    assert(t_hewg@ =~= seq![a.enhance, a.aow, a.top]);
    assert(t_rod@ =~= seq![a.buddy, a.top]);
    assert(t_tmh@ =~= seq![a.buy, a.sell, a.top]);

    let hewg = menu_with_targets(&hewg_rows_v, a.hewg, a.hewg_branch, a.top, &t_hewg);
    let roderika = menu_with_targets(&roderika_rows_v, a.roderika, a.roderika_branch, a.top, &t_rod);
    let tmh = menu_with_targets(&tmh_rows_v, a.tmh, a.tmh_branch, a.top, &t_tmh);
    let top = menu_with_targets(&top_rows_v, a.top, a.top_branch, initial, &t_top);
    RoundtableMenus { top, hewg, roderika, tmh, enhance, aow, buddy, buy, sell }
}

/// Adds the "Roundtable at Home" entry to a grace menu: when the feature is
/// on and the group has an initial state, builds the menus and splices the
/// entry (row `OPTION_INDEX`, opening the top menu) next to the Sort Chest
/// row. Returns the menus when the entry was added; otherwise the group is
/// unchanged.
pub fn patch_grace(
    group: &mut StateGroup,
    enabled: bool,
    m: &RoundtableMessages,
    a: &RoundtableAddrs,
) -> (r: Option<RoundtableMenus>)
    ensures
        !enabled || old(group).initial_state == 0 ==> r is None && *final(group) == *old(group),
        r matches Some(menus) ==> {
            &&& enabled
            &&& old(group).initial_state != 0
            &&& roundtable_menus(menus, *m, *a, old(group).initial_state)
            &&& !row_present(*old(group), m.roundtable)
            &&& exists|p: SplicePlan|
                valid_plan(*old(group), SpliceAnchor::SortChestRow, p) && spliced(
                    *final(group),
                    *old(group),
                    p,
                    OPTION_INDEX,
                    m.roundtable,
                    a.top,
                )
        },
        r is None ==> *final(group) == *old(group),
        r is None && enabled && old(group).initial_state != 0 ==> {
            ||| row_present(*old(group), m.roundtable)
            ||| forall|i: int|
                0 <= i < old(group).states@.len() ==> !#[trigger] state_has_anchor(
                    old(group).states@[i],
                    SpliceAnchor::SortChestRow,
                )
            ||| forall|i: int| 0 <= i < old(group).states@.len() ==> !#[trigger] state_has_dispatch(old(group).states@[i])
        },
{
    if !enabled {
        return None;
    }
    let initial = group.initial_state;
    if initial == 0 {
        return None;
    }
    let menus = build_roundtable_menus(m, a, initial);
    if splice_option_anchored(group, SpliceAnchor::SortChestRow, OPTION_INDEX, m.roundtable, a.top) {
        Some(menus)
    } else {
        None
    }
}

/// Row `index` showing `msg` in submenu `lm` opens the state at `target`:
/// the menu lists `AddTalkListData(index, msg, -1)` at list position `pos`,
/// and branch transition `pos` fires on talk-list result `index` and goes to
/// `target`.
pub open spec fn row_opens(lm: LinkedSubMenu, pos: int, index: i32, msg: i32, target: u64) -> bool {
    &&& is_event(
        lm.state.entry_events@[pos + 2],
        add_talk_list_data(),
        seq![int_expr(index), int_expr(msg), int_expr(-1i32)],
    )
    &&& lm.branch_state.transitions@[pos].evaluator@ == talk_list_result_expr(index)
    &&& lm.branch_state.transitions@[pos].target == target
}

/// Each Roundtable row opens what it names: Hewg's "Smithing" the smithing
/// shop and "Ashes of War" the ash-of-war menu, Roderika's "Spirit Tuning"
/// the spirit-upgrade menu, the Twin Maiden Husks' "Buy" the regular shop
/// and "Sell" the sell shop; the top menu's rows open those three people.
pub proof fn law_roundtable_rows_open_their_menus(
    r: RoundtableMenus,
    m: RoundtableMessages,
    a: RoundtableAddrs,
    initial: u64,
)
    requires
        roundtable_menus(r, m, a, initial),
    ensures
        row_opens(r.top, 0, 1, m.hewg, r.hewg.state.addr),
        row_opens(r.top, 1, 2, m.roderika, r.roderika.state.addr),
        row_opens(r.top, 2, 3, m.tmh, r.tmh.state.addr),
        row_opens(r.hewg, 0, 1, m.enhance, r.enhance.addr),
        row_opens(r.hewg, 1, 2, m.aow, r.aow.addr),
        row_opens(r.roderika, 0, 1, m.spirit_tuning, r.buddy.addr),
        row_opens(r.tmh, 0, 1, m.buy, r.buy.addr),
        row_opens(r.tmh, 1, 2, m.sell, r.sell.addr),
        r.enhance.entry_events@.last().command == open_enhance_shop(),
        r.aow.entry_events@.last().command == open_equipment_change_of_purpose_shop(),
        r.buddy.entry_events@.last().command == open_buddy_upgrade_menu(),
        r.buy.entry_events@.last().command == open_regular_shop(),
        r.sell.entry_events@.last().command == open_sell_shop(),
{
    assert(is_event(r.top.state.entry_events@[0int + 2], add_talk_list_data(), row_args(top_rows(m)[0])));
    assert(is_event(r.top.state.entry_events@[1int + 2], add_talk_list_data(), row_args(top_rows(m)[1])));
    assert(is_event(r.top.state.entry_events@[2int + 2], add_talk_list_data(), row_args(top_rows(m)[2])));
    assert(is_event(r.hewg.state.entry_events@[0int + 2], add_talk_list_data(), row_args(hewg_rows(m)[0])));
    assert(is_event(r.hewg.state.entry_events@[1int + 2], add_talk_list_data(), row_args(hewg_rows(m)[1])));
    assert(is_event(r.roderika.state.entry_events@[0int + 2], add_talk_list_data(), row_args(roderika_rows(m)[0])));
    assert(is_event(r.tmh.state.entry_events@[0int + 2], add_talk_list_data(), row_args(tmh_rows(m)[0])));
    assert(is_event(r.tmh.state.entry_events@[1int + 2], add_talk_list_data(), row_args(tmh_rows(m)[1])));
    assert(is_plain_transition(r.top.branch_state.transitions@[0], a.hewg, row_evaluator(top_rows(m)[0])));
    assert(is_plain_transition(r.top.branch_state.transitions@[1], a.roderika, row_evaluator(top_rows(m)[1])));
    assert(is_plain_transition(r.top.branch_state.transitions@[2], a.tmh, row_evaluator(top_rows(m)[2])));
    assert(is_plain_transition(r.hewg.branch_state.transitions@[0], a.enhance, row_evaluator(hewg_rows(m)[0])));
    assert(is_plain_transition(r.hewg.branch_state.transitions@[1], a.aow, row_evaluator(hewg_rows(m)[1])));
    assert(is_plain_transition(r.roderika.branch_state.transitions@[0], a.buddy, row_evaluator(roderika_rows(m)[0])));
    assert(is_plain_transition(r.tmh.branch_state.transitions@[0], a.buy, row_evaluator(tmh_rows(m)[0])));
    assert(is_plain_transition(r.tmh.branch_state.transitions@[1], a.sell, row_evaluator(tmh_rows(m)[1])));
    assert(enhance_prep().len() + 1 == r.enhance.entry_events@.len());
}

} // verus!

//! "Anti-Farm QoL Shop": a grace-menu entry opening the regular shop UI on a
//! mod-owned lineup of items the player would otherwise farm (Gold Firefly,
//! Four-Toed Fowl Foot, Flight Pinion, Aeonian Butterfly).
//!
//! The lineup rows live in a reserved id range starting at [`SHOP_ID`]; the
//! two shop lookups answer for that range and fall through to the game for
//! anything else. A candidate that the game (or another loaded mod) already
//! sells in infinite quantity as goods is dropped from the lineup, unless that
//! would leave the shop empty, in which case every candidate is kept.

use vstd::prelude::*;
use vstd::slice::slice_to_vec;
use crate::esd::{
    int_expr, make_int_expression, open_regular_shop, Command, Event, State, StateGroup,
    Transition, SHOP_MENU_CLOSED_EXPR,
};
use crate::splice::{
    row_present, spliced, splice_option_anchored, state_has_anchor, state_has_dispatch,
    valid_plan, SpliceAnchor, SplicePlan,
};

verus! {

/// First mod-owned shop lineup id; the shop covers `SHOP_ID..SHOP_ID + len`.
pub const SHOP_ID: i32 = 9_500_000;

/// Grace-menu row index of the entry (70 is taken by Elden Ring Reforged).
pub const OPTION_INDEX: i32 = 73;

/// Message bound of the shop title.
pub const MSGBND_MENU_TEXT: u32 = 200;

/// Equip type of goods.
pub const EQUIP_TYPE_GOODS: u8 = 3;

/// The bit pattern of the `f32` value `1.0`.
pub const ONE_F32_BITS: u32 = 0x3f80_0000;

/// Number of candidate items.
pub const CANDIDATE_COUNT: usize = 4;

/// Candidate `i` as `(equip id, price)`, in shop order.
pub open spec fn spec_candidate(i: int) -> (i32, i32) {
    if i == 0 {
        (20811i32, 500i32)
    } else if i == 1 {
        (15080i32, 1000i32)
    } else if i == 2 {
        (15060i32, 1000i32)
    } else {
        (20801i32, 500i32)
    }
}

/// Candidate `i` as `(equip id, price)`: Gold Firefly, Four-Toed Fowl Foot,
/// Flight Pinion, Aeonian Butterfly.
pub fn candidate(i: usize) -> (r: (i32, i32))
    requires
        i < CANDIDATE_COUNT,
    ensures
        r == spec_candidate(i as int),
{
    if i == 0 {
        (20811, 500)
    } else if i == 1 {
        (15080, 1000)
    } else if i == 2 {
        (15060, 1000)
    } else {
        (20801, 500)
    }
}

/// The fields of a game `ShopLineupParam` row that decide whether it sells an
/// item for good.
#[derive(Clone, Copy, Debug)]
pub struct GameShopRow {
    pub equip_id: i32,
    pub equip_type: u8,
    pub sell_quantity: i16,
}

/// A `SHOP_LINEUP_PARAM` row as plain values (`value_magnification_bits` is
/// the bit pattern of the `f32` field).
#[derive(Clone, Copy, Debug)]
pub struct ShopLineupRow {
    pub equip_id: i32,
    pub value: i32,
    pub mtrl_id: i32,
    pub sell_quantity: i16,
    pub equip_type: u8,
    pub set_num: u16,
    pub value_magnification_bits: u32,
    pub icon_id: i32,
    pub name_msg_id: i32,
    pub menu_title_msg_id: i32,
    pub menu_icon_id: i16,
}

/// `row` sells `equip_id` as goods in infinite quantity.
pub open spec fn sells_forever(row: GameShopRow, equip_id: i32) -> bool {
    row.equip_id == equip_id && row.equip_type == EQUIP_TYPE_GOODS && row.sell_quantity == -1
}

/// Some row of a readable table sells `equip_id` forever; an unreadable table
/// (`None`) sells nothing.
pub open spec fn sold_by_game(table: Option<Seq<GameShopRow>>, equip_id: i32) -> bool {
    match table {
        Some(rows) => sold_in(rows, equip_id),
        None => false,
    }
}

/// Some row of `rows` sells `equip_id` forever.
pub open spec fn sold_in(rows: Seq<GameShopRow>, equip_id: i32) -> bool {
    exists|k: int| 0 <= k < rows.len() && #[trigger] sells_forever(rows[k], equip_id)
}

/// The rows of a shop table that could be read.
pub open spec fn table_view(table: Option<&[GameShopRow]>) -> Option<Seq<GameShopRow>> {
    match table {
        Some(t) => Some(t@),
        None => None,
    }
}

/// Whether the game's shop table (when it can be read) already sells
/// `equip_id` as goods in infinite quantity.
pub fn sold_by_game_shop(table: Option<&[GameShopRow]>, equip_id: i32) -> (r: bool)
    ensures
        r == sold_by_game(table_view(table), equip_id),
{
    match table {
        None => false,
        Some(rows) => {
            for k in 0..rows.len()
                invariant
                    table == Some(rows),
                    forall|j: int| 0 <= j < k ==> !#[trigger] sells_forever(rows@[j], equip_id),
            {
                let row = rows[k];
                if row.equip_id == equip_id && row.equip_type == EQUIP_TYPE_GOODS && row.sell_quantity
                    == -1 {
                    assert(row == rows@[k as int]);
                    assert(sells_forever(rows@[k as int], equip_id));
                    assert(sold_in(rows@, equip_id));
                    return true;
                }
            }
            assert(!sold_in(rows@, equip_id));
            false
        },
    }
}

/// The candidates among the first `n` that the game does not sell forever, in
/// shop order.
pub open spec fn kept_prefix(table: Option<Seq<GameShopRow>>, n: int) -> Seq<(i32, i32)>
    decreases n,
{
    if n <= 0 {
        seq![]
    } else {
        let before = kept_prefix(table, n - 1);
        if sold_by_game(table, spec_candidate(n - 1).0) {
            before
        } else {
            before.push(spec_candidate(n - 1))
        }
    }
}

/// The items of the shop: the kept candidates, or every candidate when none
/// is kept.
pub open spec fn shop_items(table: Option<Seq<GameShopRow>>) -> Seq<(i32, i32)> {
    let kept = kept_prefix(table, CANDIDATE_COUNT as int);
    if kept.len() == 0 {
        seq![spec_candidate(0), spec_candidate(1), spec_candidate(2), spec_candidate(3)]
    } else {
        kept
    }
}

/// The lineup row selling `equip_id` as goods at `price`, in unlimited
/// quantity, under the shop title `title_msg`.
pub open spec fn lineup_row(equip_id: i32, price: i32, title_msg: i32) -> ShopLineupRow {
    ShopLineupRow {
        equip_id,
        value: price,
        mtrl_id: -1i32,
        sell_quantity: -1i16,
        equip_type: EQUIP_TYPE_GOODS,
        set_num: 1u16,
        value_magnification_bits: ONE_F32_BITS,
        icon_id: -1i32,
        name_msg_id: -1i32,
        menu_title_msg_id: title_msg,
        menu_icon_id: -1i16,
    }
}

/// Builds the lineup row selling `equip_id` at `price`.
pub fn make_lineup(equip_id: i32, price: i32, title_msg: i32) -> (r: ShopLineupRow)
    ensures
        r == lineup_row(equip_id, price, title_msg),
{
    ShopLineupRow {
        equip_id,
        value: price,
        mtrl_id: -1,
        sell_quantity: -1,
        equip_type: EQUIP_TYPE_GOODS,
        set_num: 1,
        value_magnification_bits: ONE_F32_BITS,
        icon_id: -1,
        name_msg_id: -1,
        menu_title_msg_id: title_msg,
        menu_icon_id: -1,
    }
}

proof fn lemma_kept_prefix_len(table: Option<Seq<GameShopRow>>, n: int)
    ensures
        kept_prefix(table, n).len() <= if n < 0 { 0 } else { n },
    decreases n,
{
    if n > 0 {
        lemma_kept_prefix_len(table, n - 1);
    }
}

/// The shop lineup: one row per shop item, in order.
pub fn lineups(table: Option<&[GameShopRow]>, title_msg: i32) -> (r: Vec<ShopLineupRow>)
    ensures
        ({
            let items = shop_items(
                match table {
                    Some(t) => Some(t@),
                    None => None,
                },
            );
            &&& r@.len() == items.len()
            &&& forall|i: int| 0 <= i < items.len() ==> #[trigger] r@[i] == lineup_row(items[i].0, items[i].1, title_msg)
        }),
{
    let ghost tv: Option<Seq<GameShopRow>> = table_view(table);
    let mut kept: Vec<ShopLineupRow> = Vec::new();
    for i in 0..CANDIDATE_COUNT
        invariant
            tv == table_view(table),
            kept@.len() == kept_prefix(tv, i as int).len(),
            forall|k: int|
                0 <= k < kept@.len() ==> #[trigger] kept@[k] == lineup_row(
                    kept_prefix(tv, i as int)[k].0,
                    kept_prefix(tv, i as int)[k].1,
                    title_msg,
                ),
    {
        let (equip_id, price) = candidate(i);
        if !sold_by_game_shop(table, equip_id) {
            kept.push(make_lineup(equip_id, price, title_msg));
        }
        proof {
            let p = kept_prefix(tv, i as int);
            let q = kept_prefix(tv, i + 1);
            assert(q == if sold_by_game(tv, spec_candidate(i as int).0) { p } else { p.push(spec_candidate(i as int)) });
        }
    }
    if kept.len() == 0 {
        let mut all: Vec<ShopLineupRow> = Vec::new();
        for i in 0..CANDIDATE_COUNT
            invariant
                all@.len() == i,
                forall|k: int|
                    0 <= k < i ==> #[trigger] all@[k] == lineup_row(spec_candidate(k).0, spec_candidate(k).1, title_msg),
        {
            let (equip_id, price) = candidate(i);
            all.push(make_lineup(equip_id, price, title_msg));
        }
        proof {
            let items = shop_items(tv);
            assert(items.len() == 4);
            assert forall|k: int| 0 <= k < 4 implies items[k] == spec_candidate(k) by {
            }
        }
        all
    } else {
        kept
    }
}

/// The menu lookup answers for the range starting at [`SHOP_ID`] only.
pub fn serves_shop_menu(begin_id: i32) -> (r: bool)
    ensures
        r == (begin_id == SHOP_ID),
{
    begin_id == SHOP_ID
}

/// The lineup row that the lineup lookup serves for `id`, given `len` rows:
/// `id - SHOP_ID` when that is a row, `None` (the game answers) otherwise.
pub fn lineup_index(id: i32, len: usize) -> (r: Option<usize>)
    ensures
        r == (if SHOP_ID <= id && id - SHOP_ID < len {
            Some((id - SHOP_ID) as usize)
        } else {
            None
        }),
        r matches Some(k) ==> spec_lineup_index(id, len as int) == Some(k as int),
        r is None ==> spec_lineup_index(id, len as int) is None,
{
    if id >= SHOP_ID {
        let d = (id - SHOP_ID) as usize;
        if d < len {
            return Some(d);
        }
    }
    None
}

/// `s` is the shop state at `addr`: on entry it opens the regular shop on
/// `SHOP_ID..=SHOP_ID + len - 1`, and once the shop menu has closed it goes to
/// `return_state`.
pub open spec fn is_shop_state(s: State, addr: u64, len: int, return_state: u64) -> bool {
    &&& s.addr == addr
    &&& s.id == 0
    &&& s.entry_events@.len() == 1
    &&& s.entry_events@[0].command == open_regular_shop()
    &&& s.entry_events@[0].args@.len() == 2
    &&& s.entry_events@[0].args@[0]@ == int_expr(SHOP_ID)
    &&& s.entry_events@[0].args@[1]@ == int_expr((SHOP_ID + len - 1) as i32)
    &&& s.exit_events@.len() == 0
    &&& s.transitions@.len() == 1
    &&& s.transitions@[0].target == return_state
    &&& s.transitions@[0].sub_transitions@.len() == 0
    &&& s.transitions@[0].evaluator@ == SHOP_MENU_CLOSED_EXPR@
}

/// Builds the shop state at `addr` for a lineup of `len` rows.
pub fn make_shop_state(len: usize, return_state: u64, addr: u64) -> (s: State)
    requires
        1 <= len <= CANDIDATE_COUNT,
    ensures
        is_shop_state(s, addr, len as int, return_state),
{
    let end = SHOP_ID + (len as i32) - 1;
    let mut args: Vec<Vec<u8>> = Vec::new();
    args.push(slice_to_vec(&make_int_expression(SHOP_ID)));
    args.push(slice_to_vec(&make_int_expression(end)));
    let mut entry_events: Vec<Event> = Vec::new();
    entry_events.push(Event { command: open_regular_shop(), args });
    let mut transitions: Vec<Transition> = Vec::new();
    transitions.push(
        Transition {
            target: return_state,
            sub_transitions: Vec::new(),
            evaluator: slice_to_vec(&SHOP_MENU_CLOSED_EXPR),
        },
    );
    State { addr, id: 0, transitions, entry_events, exit_events: Vec::new() }
}

/// Adds the shop entry to a grace menu: when the feature is on and the group
/// has an initial state, builds the shop state at `shop_addr` (returning to
/// the initial state) and splices the entry (row [`OPTION_INDEX`], message
/// `msg`) next to the Sort Chest row. Returns the shop state when the entry
/// was added; otherwise the group is unchanged.
pub fn patch_grace(
    group: &mut StateGroup,
    enabled: bool,
    msg: i32,
    len: usize,
    shop_addr: u64,
) -> (r: Option<State>)
    requires
        1 <= len <= CANDIDATE_COUNT,
    ensures
        !enabled || old(group).initial_state == 0 ==> r is None && *final(group) == *old(group),
        r matches Some(s) ==> {
            &&& enabled
            &&& old(group).initial_state != 0
            &&& is_shop_state(s, shop_addr, len as int, old(group).initial_state)
            &&& !row_present(*old(group), msg)
            &&& exists|p: SplicePlan|
                valid_plan(*old(group), SpliceAnchor::SortChestRow, p) && spliced(
                    *final(group),
                    *old(group),
                    p,
                    OPTION_INDEX,
                    msg,
                    shop_addr,
                )
        },
        r is None ==> *final(group) == *old(group),
        r is None && enabled && old(group).initial_state != 0 ==> {
            ||| row_present(*old(group), msg)
            ||| forall|i: int|
                0 <= i < old(group).states@.len() ==> !#[trigger] state_has_anchor(
                    old(group).states@[i],
                    SpliceAnchor::SortChestRow,
                )
            ||| forall|i: int| 0 <= i < old(group).states@.len() ==> !#[trigger] state_has_dispatch(old(group).states@[i])
        },
{
    if !enabled {
        return None;
    }
    let initial = group.initial_state;
    if initial == 0 {
        return None;
    }
    let shop = make_shop_state(len, initial, shop_addr);
    if splice_option_anchored(group, SpliceAnchor::SortChestRow, OPTION_INDEX, msg, shop_addr) {
        Some(shop)
    } else {
        None
    }
}

/// The lineup row the lookup serves for `id`, given `len` rows.
pub open spec fn spec_lineup_index(id: i32, len: int) -> Option<int> {
    if SHOP_ID <= id && id - SHOP_ID < len {
        Some(id - SHOP_ID)
    } else {
        None
    }
}

/// The shop always sells something: at least one item, and at most every
/// candidate.
pub proof fn law_shop_nonempty(table: Option<Seq<GameShopRow>>)
    ensures
        1 <= shop_items(table).len() <= CANDIDATE_COUNT,
{
    lemma_kept_prefix_len(table, CANDIDATE_COUNT as int);
}

/// Every id of the range the shop state opens is served by the lineup lookup,
/// with the row at its offset from [`SHOP_ID`].
pub proof fn law_shop_range_served(len: int, id: i32)
    requires
        1 <= len <= CANDIDATE_COUNT,
        SHOP_ID <= id <= SHOP_ID + len - 1,
    ensures
        spec_lineup_index(id, len) == Some(id - SHOP_ID),
{
}

proof fn lemma_kept_contains(table: Option<Seq<GameShopRow>>, n: int, i: int)
    requires
        0 <= n <= CANDIDATE_COUNT,
        0 <= i < CANDIDATE_COUNT,
    ensures
        kept_prefix(table, n).contains(spec_candidate(i)) <==> (i < n && !sold_by_game(table, spec_candidate(i).0)),
    decreases n,
{
    if n > 0 {
        lemma_kept_contains(table, n - 1, i);
        let before = kept_prefix(table, n - 1);
        let c = spec_candidate(n - 1);
        if !sold_by_game(table, c.0) {
            let after = before.push(c);
            assert(after[after.len() - 1] == c);
            if before.contains(spec_candidate(i)) {
                let k = choose|k: int| 0 <= k < before.len() && before[k] == spec_candidate(i);
                assert(after[k] == spec_candidate(i));
            }
            if after.contains(spec_candidate(i)) && !before.contains(spec_candidate(i)) {
                let k = choose|k: int| 0 <= k < after.len() && after[k] == spec_candidate(i);
                if k < before.len() {
                    assert(before[k] == spec_candidate(i));
                }
                assert(c == spec_candidate(i));
            }
        }
    }
}

/// The shop sells the fallback items the game does not already sell forever:
/// Gold Firefly (20811, 500 runes), Four-Toed Fowl Foot (15080, 1000), Turtle
/// Neck Meat (15060, 1000) and Silver Firefly (20801, 500). An item the game
/// sells forever is left out, unless the game sells all four, in which case
/// the shop sells all four.
pub proof fn law_shop_leaves_out_sold_items(table: Option<Seq<GameShopRow>>, i: int)
    requires
        0 <= i < CANDIDATE_COUNT,
    ensures
        spec_candidate(0) == (20811i32, 500i32),
        spec_candidate(1) == (15080i32, 1000i32),
        spec_candidate(2) == (15060i32, 1000i32),
        spec_candidate(3) == (20801i32, 500i32),
        !sold_by_game(table, spec_candidate(i).0) ==> shop_items(table).contains(spec_candidate(i)),
        (sold_by_game(table, spec_candidate(i).0) && exists|j: int|
            0 <= j < CANDIDATE_COUNT && !sold_by_game(table, #[trigger] spec_candidate(j).0))
            ==> !shop_items(table).contains(spec_candidate(i)),
        (forall|j: int| 0 <= j < CANDIDATE_COUNT ==> sold_by_game(table, #[trigger] spec_candidate(j).0))
            ==> shop_items(table) == seq![spec_candidate(0), spec_candidate(1), spec_candidate(2), spec_candidate(3)],
{
    lemma_kept_contains(table, CANDIDATE_COUNT as int, i);
    let kept = kept_prefix(table, CANDIDATE_COUNT as int);
    if exists|j: int| 0 <= j < CANDIDATE_COUNT && !sold_by_game(table, #[trigger] spec_candidate(j).0) {
        let j = choose|j: int| 0 <= j < CANDIDATE_COUNT && !sold_by_game(table, #[trigger] spec_candidate(j).0);
        lemma_kept_contains(table, CANDIDATE_COUNT as int, j);
        assert(kept.len() > 0);
    } else {
        if kept.len() > 0 {
            let c = kept[0];
            lemma_kept_prefix_members(table, CANDIDATE_COUNT as int);
            let j = choose|j: int| 0 <= j < CANDIDATE_COUNT && spec_candidate(j) == c && !sold_by_game(table, c.0);
            assert(!sold_by_game(table, spec_candidate(j).0));
        }
    }
}

proof fn lemma_kept_prefix_members(table: Option<Seq<GameShopRow>>, n: int)
    requires
        0 <= n <= CANDIDATE_COUNT,
    ensures
        forall|k: int|
            0 <= k < kept_prefix(table, n).len() ==> exists|j: int|
                0 <= j < CANDIDATE_COUNT && spec_candidate(j) == #[trigger] kept_prefix(table, n)[k] && !sold_by_game(
                    table,
                    kept_prefix(table, n)[k].0,
                ),
    decreases n,
{
    if n > 0 {
        lemma_kept_prefix_members(table, n - 1);
        let before = kept_prefix(table, n - 1);
        let c = spec_candidate(n - 1);
        assert forall|k: int| 0 <= k < kept_prefix(table, n).len() implies exists|j: int|
            0 <= j < CANDIDATE_COUNT && spec_candidate(j) == #[trigger] kept_prefix(table, n)[k] && !sold_by_game(
                table,
                kept_prefix(table, n)[k].0,
            ) by {
            if k < before.len() {
                assert(kept_prefix(table, n)[k] == before[k]);
            } else {
                assert(kept_prefix(table, n)[k] == c);
                assert(spec_candidate(n - 1) == c);
            }
        }
    }
}

} // verus!

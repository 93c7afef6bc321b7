//! "Consume all Runes": which goods are rune items and remembrances, what
//! consuming every stack of a kind does to the inventory and the rune count,
//! and the glow indicators of the menu rows.

use vstd::prelude::*;
use crate::esd::{add_talk_list_data_alt, arg_int, event_arg_int, State, StateGroup};
use crate::menu::{
    action_entries, is_branch_state, is_menu_state, link_from_rows_self_return, registrations, ActionRegistry,
    LinkedSubMenu, MenuAddrs, MenuRow,
};
use crate::splice::{
    row_present, spliced, splice_option_anchored, state_has_anchor, state_has_dispatch, valid_plan, SpliceAnchor,
    SplicePlan,
};

verus! {

/// Param ids of every rune item (Golden Runes, Numen's/Hero's/Lord's Runes,
/// the Lands Between Rune and the DLC runes).
pub const RUNE_IDS: [u32; 32] = [
    2900, 2901, 2902, 2903, 2904, 2905, 2906, 2907, 2908, 2909, 2910, 2911, 2912, 2913, 2914, 2915, 2916,
    2917, 2918, 2919, 2990, 2002950, 2002951, 2002952, 2002953, 2002954, 2002955, 2002956, 2002957,
    2002958, 2002959, 2002960,
];

/// Param ids of every remembrance.
pub const REMEMBRANCE_IDS: [u32; 25] = [
    2950, 2951, 2952, 2953, 2954, 2955, 2956, 2957, 2958, 2959, 2960, 2961, 2962, 2963, 2964, 2002900,
    2002901, 2002902, 2002903, 2002904, 2002905, 2002907, 2002908, 2002909, 2002910,
];

/// The kind of item a consume row takes.
#[derive(Clone, Copy, Debug, PartialEq, Eq, Structural)]
pub enum RuneKind {
    Golden,
    Remembrance,
}

pub open spec fn spec_is_target(kind: RuneKind, id: u32) -> bool {
    match kind {
        RuneKind::Golden => RUNE_IDS@.contains(id),
        RuneKind::Remembrance => REMEMBRANCE_IDS@.contains(id),
    }
}

fn table_contains(t: &[u32], id: u32) -> (r: bool)
    ensures
        r == t@.contains(id),
{
    for i in 0..t.len()
        invariant
            forall|k: int| 0 <= k < i ==> t@[k] != id,
    {
        if t[i] == id {
            assert(t@[i as int] == id);
            return true;
        }
    }
    false
}

/// Whether `id` is a rune item.
pub fn is_rune(id: u32) -> (r: bool)
    ensures
        r == spec_is_target(RuneKind::Golden, id),
{
    table_contains(&RUNE_IDS, id)
}

/// Whether `id` is a remembrance.
pub fn is_remembrance(id: u32) -> (r: bool)
    ensures
        r == spec_is_target(RuneKind::Remembrance, id),
{
    table_contains(&REMEMBRANCE_IDS, id)
}

pub fn is_target(kind: RuneKind, id: u32) -> (r: bool)
    ensures
        r == spec_is_target(kind, id),
{
    match kind {
        RuneKind::Golden => is_rune(id),
        RuneKind::Remembrance => is_remembrance(id),
    }
}

/// One inventory stack.
#[derive(Clone, Copy, Debug, PartialEq, Eq, Structural)]
pub struct InventoryEntry {
    pub param_id: u32,
    pub quantity: u32,
}

/// Runes granted by the matching stacks among the first `k`: quantity times
/// the item's rune value.
pub open spec fn total_value(es: Seq<InventoryEntry>, values: Seq<u64>, kind: RuneKind, k: int) -> int
    decreases k,
{
    if k <= 0 {
        0
    } else {
        total_value(es, values, kind, k - 1) + if spec_is_target(kind, es[k - 1].param_id) {
            es[k - 1].quantity * values[k - 1]
        } else {
            0
        }
    }
}

/// Items in the matching stacks among the first `k`.
pub open spec fn total_count(es: Seq<InventoryEntry>, kind: RuneKind, k: int) -> int
    decreases k,
{
    if k <= 0 {
        0
    } else {
        total_count(es, kind, k - 1) + if spec_is_target(kind, es[k - 1].param_id) {
            es[k - 1].quantity as int
        } else {
            0
        }
    }
}

proof fn lemma_totals_nonneg(es: Seq<InventoryEntry>, values: Seq<u64>, kind: RuneKind, k: int)
    requires
        k <= es.len(),
        values.len() == es.len(),
    ensures
        0 <= total_value(es, values, kind, k),
        0 <= total_count(es, kind, k),
    decreases k,
{
    if k > 0 {
        lemma_totals_nonneg(es, values, kind, k - 1);
        assert(es[k - 1].quantity * values[k - 1] >= 0) by (nonlinear_arith);
    }
}

proof fn lemma_totals_grow(es: Seq<InventoryEntry>, values: Seq<u64>, kind: RuneKind, j: int, k: int)
    requires
        0 <= j <= k <= es.len(),
        values.len() == es.len(),
    ensures
        0 <= total_value(es, values, kind, j) <= total_value(es, values, kind, k),
        0 <= total_count(es, kind, j) <= total_count(es, kind, k),
    decreases k - j,
{
    lemma_totals_nonneg(es, values, kind, j);
    if j < k {
        lemma_totals_grow(es, values, kind, j, k - 1);
        assert(es[k - 1].quantity * values[k - 1] >= 0) by (nonlinear_arith);
    }
}

/// Every golden rune is consumed as a rune and every remembrance as a
/// remembrance: the rune ids 2900..=2919, 2990 and 2002950..=2002960, and
/// the remembrance ids 2950..=2964, 2002900..=2002905 and 2002907..=2002910;
/// and no id is both.
pub proof fn law_rune_tables()
    ensures
        spec_is_target(RuneKind::Golden, 2900u32) &&
        spec_is_target(RuneKind::Golden, 2901u32) &&
        spec_is_target(RuneKind::Golden, 2902u32) &&
        spec_is_target(RuneKind::Golden, 2903u32) &&
        spec_is_target(RuneKind::Golden, 2904u32) &&
        spec_is_target(RuneKind::Golden, 2905u32) &&
        spec_is_target(RuneKind::Golden, 2906u32) &&
        spec_is_target(RuneKind::Golden, 2907u32) &&
        spec_is_target(RuneKind::Golden, 2908u32) &&
        spec_is_target(RuneKind::Golden, 2909u32) &&
        spec_is_target(RuneKind::Golden, 2910u32) &&
        spec_is_target(RuneKind::Golden, 2911u32) &&
        spec_is_target(RuneKind::Golden, 2912u32) &&
        spec_is_target(RuneKind::Golden, 2913u32) &&
        spec_is_target(RuneKind::Golden, 2914u32) &&
        spec_is_target(RuneKind::Golden, 2915u32) &&
        spec_is_target(RuneKind::Golden, 2916u32) &&
        spec_is_target(RuneKind::Golden, 2917u32) &&
        spec_is_target(RuneKind::Golden, 2918u32) &&
        spec_is_target(RuneKind::Golden, 2919u32) &&
        spec_is_target(RuneKind::Golden, 2990u32) &&
        spec_is_target(RuneKind::Golden, 2002950u32) &&
        spec_is_target(RuneKind::Golden, 2002951u32) &&
        spec_is_target(RuneKind::Golden, 2002952u32) &&
        spec_is_target(RuneKind::Golden, 2002953u32) &&
        spec_is_target(RuneKind::Golden, 2002954u32) &&
        spec_is_target(RuneKind::Golden, 2002955u32) &&
        spec_is_target(RuneKind::Golden, 2002956u32) &&
        spec_is_target(RuneKind::Golden, 2002957u32) &&
        spec_is_target(RuneKind::Golden, 2002958u32) &&
        spec_is_target(RuneKind::Golden, 2002959u32) &&
        spec_is_target(RuneKind::Golden, 2002960u32),
        spec_is_target(RuneKind::Remembrance, 2950u32) &&
        spec_is_target(RuneKind::Remembrance, 2951u32) &&
        spec_is_target(RuneKind::Remembrance, 2952u32) &&
        spec_is_target(RuneKind::Remembrance, 2953u32) &&
        spec_is_target(RuneKind::Remembrance, 2954u32) &&
        spec_is_target(RuneKind::Remembrance, 2955u32) &&
        spec_is_target(RuneKind::Remembrance, 2956u32) &&
        spec_is_target(RuneKind::Remembrance, 2957u32) &&
        spec_is_target(RuneKind::Remembrance, 2958u32) &&
        spec_is_target(RuneKind::Remembrance, 2959u32) &&
        spec_is_target(RuneKind::Remembrance, 2960u32) &&
        spec_is_target(RuneKind::Remembrance, 2961u32) &&
        spec_is_target(RuneKind::Remembrance, 2962u32) &&
        spec_is_target(RuneKind::Remembrance, 2963u32) &&
        spec_is_target(RuneKind::Remembrance, 2964u32) &&
        spec_is_target(RuneKind::Remembrance, 2002900u32) &&
        spec_is_target(RuneKind::Remembrance, 2002901u32) &&
        spec_is_target(RuneKind::Remembrance, 2002902u32) &&
        spec_is_target(RuneKind::Remembrance, 2002903u32) &&
        spec_is_target(RuneKind::Remembrance, 2002904u32) &&
        spec_is_target(RuneKind::Remembrance, 2002905u32) &&
        spec_is_target(RuneKind::Remembrance, 2002907u32) &&
        spec_is_target(RuneKind::Remembrance, 2002908u32) &&
        spec_is_target(RuneKind::Remembrance, 2002909u32) &&
        spec_is_target(RuneKind::Remembrance, 2002910u32),
        forall|id: u32| !(spec_is_target(RuneKind::Golden, id) && spec_is_target(RuneKind::Remembrance, id)),
{
    assert(RUNE_IDS@[0] == 2900u32);
    assert(RUNE_IDS@[1] == 2901u32);
    assert(RUNE_IDS@[2] == 2902u32);
    assert(RUNE_IDS@[3] == 2903u32);
    assert(RUNE_IDS@[4] == 2904u32);
    assert(RUNE_IDS@[5] == 2905u32);
    assert(RUNE_IDS@[6] == 2906u32);
    assert(RUNE_IDS@[7] == 2907u32);
    assert(RUNE_IDS@[8] == 2908u32);
    assert(RUNE_IDS@[9] == 2909u32);
    assert(RUNE_IDS@[10] == 2910u32);
    assert(RUNE_IDS@[11] == 2911u32);
    assert(RUNE_IDS@[12] == 2912u32);
    assert(RUNE_IDS@[13] == 2913u32);
    assert(RUNE_IDS@[14] == 2914u32);
    assert(RUNE_IDS@[15] == 2915u32);
    assert(RUNE_IDS@[16] == 2916u32);
    assert(RUNE_IDS@[17] == 2917u32);
    assert(RUNE_IDS@[18] == 2918u32);
    assert(RUNE_IDS@[19] == 2919u32);
    assert(RUNE_IDS@[20] == 2990u32);
    assert(RUNE_IDS@[21] == 2002950u32);
    assert(RUNE_IDS@[22] == 2002951u32);
    assert(RUNE_IDS@[23] == 2002952u32);
    assert(RUNE_IDS@[24] == 2002953u32);
    assert(RUNE_IDS@[25] == 2002954u32);
    assert(RUNE_IDS@[26] == 2002955u32);
    assert(RUNE_IDS@[27] == 2002956u32);
    assert(RUNE_IDS@[28] == 2002957u32);
    assert(RUNE_IDS@[29] == 2002958u32);
    assert(RUNE_IDS@[30] == 2002959u32);
    assert(RUNE_IDS@[31] == 2002960u32);
    assert(REMEMBRANCE_IDS@[0] == 2950u32);
    assert(REMEMBRANCE_IDS@[1] == 2951u32);
    assert(REMEMBRANCE_IDS@[2] == 2952u32);
    assert(REMEMBRANCE_IDS@[3] == 2953u32);
    assert(REMEMBRANCE_IDS@[4] == 2954u32);
    assert(REMEMBRANCE_IDS@[5] == 2955u32);
    assert(REMEMBRANCE_IDS@[6] == 2956u32);
    assert(REMEMBRANCE_IDS@[7] == 2957u32);
    assert(REMEMBRANCE_IDS@[8] == 2958u32);
    assert(REMEMBRANCE_IDS@[9] == 2959u32);
    assert(REMEMBRANCE_IDS@[10] == 2960u32);
    assert(REMEMBRANCE_IDS@[11] == 2961u32);
    assert(REMEMBRANCE_IDS@[12] == 2962u32);
    assert(REMEMBRANCE_IDS@[13] == 2963u32);
    assert(REMEMBRANCE_IDS@[14] == 2964u32);
    assert(REMEMBRANCE_IDS@[15] == 2002900u32);
    assert(REMEMBRANCE_IDS@[16] == 2002901u32);
    assert(REMEMBRANCE_IDS@[17] == 2002902u32);
    assert(REMEMBRANCE_IDS@[18] == 2002903u32);
    assert(REMEMBRANCE_IDS@[19] == 2002904u32);
    assert(REMEMBRANCE_IDS@[20] == 2002905u32);
    assert(REMEMBRANCE_IDS@[21] == 2002907u32);
    assert(REMEMBRANCE_IDS@[22] == 2002908u32);
    assert(REMEMBRANCE_IDS@[23] == 2002909u32);
    assert(REMEMBRANCE_IDS@[24] == 2002910u32);
    assert forall|id: u32| !(spec_is_target(RuneKind::Golden, id) && spec_is_target(RuneKind::Remembrance, id)) by {
        if spec_is_target(RuneKind::Golden, id) && spec_is_target(RuneKind::Remembrance, id) {
            let i = choose|i: int| 0 <= i < RUNE_IDS@.len() && RUNE_IDS@[i] == id;
            let j = choose|j: int| 0 <= j < REMEMBRANCE_IDS@.len() && REMEMBRANCE_IDS@[j] == id;
            assert(RUNE_IDS@[i] != REMEMBRANCE_IDS@[j]) by {
                if i == 0 {}
                if i == 1 {}
                if i == 2 {}
                if i == 3 {}
                if i == 4 {}
                if i == 5 {}
                if i == 6 {}
                if i == 7 {}
                if i == 8 {}
                if i == 9 {}
                if i == 10 {}
                if i == 11 {}
                if i == 12 {}
                if i == 13 {}
                if i == 14 {}
                if i == 15 {}
                if i == 16 {}
                if i == 17 {}
                if i == 18 {}
                if i == 19 {}
                if i == 20 {}
                if i == 21 {}
                if i == 22 {}
                if i == 23 {}
                if i == 24 {}
                if i == 25 {}
                if i == 26 {}
                if i == 27 {}
                if i == 28 {}
                if i == 29 {}
                if i == 30 {}
                if i == 31 {}
            }
        }
    }
}

/// What consuming a kind did: the runes gained and the items used.
#[derive(Clone, Copy, Debug, PartialEq, Eq, Structural)]
pub struct ConsumeResult {
    pub total_value: u64,
    pub consumed_count: u64,
}

/// Consumes every stack of `kind`: adds their rune value (stack size times
/// `values[i]`, the item's rune value) to the rune count, saturating at
/// `u32::MAX`, and empties the stacks.
/// With no matching item nothing changes and the result is `None`.
pub fn consume_matching(
    entries: &mut Vec<InventoryEntry>,
    values: &[u64],
    kind: RuneKind,
    rune_count: &mut u32,
) -> (r: Option<ConsumeResult>)
    requires
        values@.len() == old(entries)@.len(),
        total_value(old(entries)@, values@, kind, old(entries)@.len() as int) <= u64::MAX,
        total_count(old(entries)@, kind, old(entries)@.len() as int) <= u64::MAX,
    ensures
        ({
            let tv = total_value(old(entries)@, values@, kind, old(entries)@.len() as int);
            let tc = total_count(old(entries)@, kind, old(entries)@.len() as int);
            if tc == 0 {
                &&& r is None
                &&& final(entries)@ == old(entries)@
                &&& *final(rune_count) == *old(rune_count)
            } else {
                &&& r == Some(ConsumeResult { total_value: tv as u64, consumed_count: tc as u64 })
                &&& *final(rune_count) as int == if *old(rune_count) + tv > u32::MAX {
                    u32::MAX as int
                } else {
                    *old(rune_count) + tv
                }
                &&& final(entries)@.len() == old(entries)@.len()
                &&& forall|i: int|
                    0 <= i < old(entries)@.len() ==> #[trigger] final(entries)@[i] == if spec_is_target(
                        kind,
                        old(entries)@[i].param_id,
                    ) {
                        InventoryEntry { param_id: old(entries)@[i].param_id, quantity: 0 }
                    } else {
                        old(entries)@[i]
                    }
            }
        }),
{
    let ghost es = entries@;
    let n = entries.len();
    let mut tv: u64 = 0;
    let mut tc: u64 = 0;
    for i in 0..n
        invariant
            n == es.len(),
            es == entries@,
            values@.len() == n,
            total_value(es, values@, kind, n as int) <= u64::MAX,
            total_count(es, kind, n as int) <= u64::MAX,
            tv == total_value(es, values@, kind, i as int),
            tc == total_count(es, kind, i as int),
    {
        proof {
            lemma_totals_grow(es, values@, kind, i + 1, n as int);
        }
        let e = entries[i];
        if is_target(kind, e.param_id) {
            tv = tv + e.quantity as u64 * values[i];
            tc = tc + e.quantity as u64;
        }
    }
    if tc == 0 {
        return None;
    }
    let add: u32 = if tv > u32::MAX as u64 {
        u32::MAX
    } else {
        tv as u32
    };
    *rune_count = rune_count.saturating_add(add);
    for i in 0..n
        invariant
            n == es.len(),
            entries@.len() == n,
            forall|k: int|
                0 <= k < i ==> #[trigger] entries@[k] == if spec_is_target(kind, es[k].param_id) {
                    InventoryEntry { param_id: es[k].param_id, quantity: 0 }
                } else {
                    es[k]
                },
            forall|k: int| i <= k < n ==> #[trigger] entries@[k] == es[k],
    {
        let e = entries[i];
        if is_target(kind, e.param_id) {
            entries.set(i, InventoryEntry { param_id: e.param_id, quantity: 0 });
        }
    }
    Some(ConsumeResult { total_value: tv, consumed_count: tc })
}

/// Some stack of `kind` is non-empty.
pub open spec fn spec_has_matching(es: Seq<InventoryEntry>, kind: RuneKind) -> bool {
    exists|i: int| 0 <= i < es.len() && (#[trigger] es[i]).quantity > 0 && spec_is_target(kind, es[i].param_id)
}

pub fn has_matching(entries: &[InventoryEntry], kind: RuneKind) -> (r: bool)
    ensures
        r == spec_has_matching(entries@, kind),
{
    for i in 0..entries.len()
        invariant
            forall|k: int| 0 <= k < i ==> !((#[trigger] entries@[k]).quantity > 0 && spec_is_target(kind, entries@[k].param_id)),
    {
        if entries[i].quantity > 0 && is_target(kind, entries[i].param_id) {
            return true;
        }
    }
    false
}

/// The glow state of the rows: bit 0 runes, bit 1 remembrances, bit 2 the
/// top-level row (either).
pub open spec fn spec_indicator_mask(rune: bool, remembrance: bool) -> u8 {
    ((if rune { 1u8 } else { 0u8 }) + (if remembrance { 2u8 } else { 0u8 }) + (if rune || remembrance {
        4u8
    } else {
        0u8
    })) as u8
}

/// The indicator literal bytes `[top, runes, remembrances]` (`0x40` off,
/// `0x41` on).
pub open spec fn spec_indicator_bytes(rune: bool, remembrance: bool) -> Seq<u8> {
    seq![
        if rune || remembrance { 0x41u8 } else { 0x40u8 },
        if rune { 0x41u8 } else { 0x40u8 },
        if remembrance { 0x41u8 } else { 0x40u8 },
    ]
}

/// One frame of indicator upkeep: with rows installed, compute the new mask;
/// when it differs from the last one written, the bytes to write. Returns the
/// mask to remember and the bytes (or `None` when nothing is written).
pub fn indicator_update(installed: bool, last_mask: u8, rune: bool, remembrance: bool) -> (r: (u8, Option<[u8; 3]>))
    ensures
        !installed ==> r == (last_mask, None::<[u8; 3]>),
        installed ==> r.0 == spec_indicator_mask(rune, remembrance),
        installed && spec_indicator_mask(rune, remembrance) == last_mask ==> r.1 is None,
        installed && spec_indicator_mask(rune, remembrance) != last_mask ==> (r.1 matches Some(b) && b@
            == spec_indicator_bytes(rune, remembrance)),
{
    if !installed {
        return (last_mask, None);
    }
    let mask: u8 = (if rune { 1u8 } else { 0u8 }) + (if remembrance { 2u8 } else { 0u8 }) + (if rune || remembrance {
        4u8
    } else {
        0u8
    });
    if mask == last_mask {
        return (mask, None);
    }
    let b: [u8; 3] = [
        if rune || remembrance { 0x41 } else { 0x40 },
        if rune { 0x41 } else { 0x40 },
        if remembrance { 0x41 } else { 0x40 },
    ];
    assert(b@ =~= spec_indicator_bytes(rune, remembrance));
    (mask, Some(b))
}

/// Grace-menu row index of the "Consume all Runes" entry.
pub const OPTION_INDEX: i32 = 69;

/// `e` is an `AddTalkListDataAlt` row showing `msg` that carries an
/// indicator argument.
pub open spec fn is_indicator_row(e: crate::esd::Event, msg: i32) -> bool {
    e.command == add_talk_list_data_alt() && arg_int(e, 2) == msg && e.args@.len() > 5
}

/// The position of the first indicator row for `msg` among `s`'s entry
/// events (whose sixth argument is the indicator literal).
pub fn find_row_indicator(s: &State, msg: i32) -> (r: Option<usize>)
    ensures
        r matches Some(j) ==> j < s.entry_events@.len() && is_indicator_row(s.entry_events@[j as int], msg)
            && forall|k: int| 0 <= k < j ==> !is_indicator_row(#[trigger] s.entry_events@[k], msg),
        r is None ==> forall|k: int| 0 <= k < s.entry_events@.len() ==> !is_indicator_row(#[trigger] s.entry_events@[k], msg),
{
    for j in 0..s.entry_events.len()
        invariant
            forall|k: int| 0 <= k < j ==> !is_indicator_row(#[trigger] s.entry_events@[k], msg),
    {
        let e = &s.entry_events[j];
        if e.command == add_talk_list_data_alt() && event_arg_int(e, 2) == msg && e.args.len() > 5 {
            return Some(j);
        }
    }
    None
}

/// Some state of the group already carries the indicator row for `msg`.
pub fn group_has_alt_row(g: &StateGroup, msg: i32) -> (r: bool)
    ensures
        r == exists|i: int, k: int|
            0 <= i < g.states@.len() && 0 <= k < g.states@[i].entry_events@.len() && #[trigger] is_indicator_row(
                g.states@[i].entry_events@[k],
                msg,
            ),
{
    for i in 0..g.states.len()
        invariant
            forall|a: int, k: int|
                0 <= a < i && 0 <= k < g.states@[a].entry_events@.len() ==> !#[trigger] is_indicator_row(
                    g.states@[a].entry_events@[k],
                    msg,
                ),
    {
        match find_row_indicator(&g.states[i], msg) {
            Some(j) => {
                assert(is_indicator_row(g.states@[i as int].entry_events@[j as int], msg));
                return true;
            },
            None => {},
        }
    }
    false
}

/// The message ids of the feature: the grace entry, the two consume rows and
/// the cancel row.
#[derive(Clone, Copy, Debug)]
pub struct ConsumeMessages {
    pub all: i32,
    pub golden: i32,
    pub remembrances: i32,
    pub cancel: i32,
}

/// The submenu's rows: consume golden runes (action `golden`), consume
/// remembrances (action `remembrance`), and the default Cancel row.
pub open spec fn consume_rows(m: ConsumeMessages, golden: u64, remembrance: u64) -> Seq<MenuRow> {
    seq![
        MenuRow { index: 1, message_id: m.golden, is_default: false, action: Some(golden) },
        MenuRow { index: 2, message_id: m.remembrances, is_default: false, action: Some(remembrance) },
        MenuRow { index: 99, message_id: m.cancel, is_default: true, action: None },
    ]
}

/// Adds the "Consume all Runes" entry to a grace menu: when the feature is on
/// and the group has an initial state, links the submenu (its action rows
/// stay in the submenu, Cancel returns to the initial state) at `addrs` and
/// splices the entry (row [`OPTION_INDEX`], opening the submenu) next to the
/// Sort Chest row. Returns the submenu when the entry was added; otherwise
/// the group is unchanged.
pub fn patch_consume_runes(
    group: &mut StateGroup,
    enabled: bool,
    m: &ConsumeMessages,
    addrs: &MenuAddrs,
    golden: u64,
    remembrance: u64,
    registry: &mut ActionRegistry,
) -> (r: Option<LinkedSubMenu>)
    requires
        addrs.actions@.len() == 3,
    ensures
        !enabled || old(group).initial_state == 0 ==> r is None && *final(group) == *old(group)
            && final(registry).entries@ == old(registry).entries@,
        r is None ==> *final(group) == *old(group) && final(registry).entries@ == old(registry).entries@,
        r is None && enabled && old(group).initial_state != 0 ==> {
            ||| row_present(*old(group), m.all)
            ||| forall|i: int|
                0 <= i < old(group).states@.len() ==> !#[trigger] state_has_anchor(
                    old(group).states@[i],
                    SpliceAnchor::SortChestRow,
                )
            ||| forall|i: int| 0 <= i < old(group).states@.len() ==> !#[trigger] state_has_dispatch(old(group).states@[i])
        },
        r matches Some(sub) ==> {
            let rows = consume_rows(*m, golden, remembrance);
            let init = old(group).initial_state;
            &&& enabled
            &&& init != 0
            &&& is_menu_state(sub.state, rows, addrs.menu, addrs.branch)
            &&& is_branch_state(sub.branch_state, rows, addrs.branch, addrs.actions@, init, addrs.menu)
            &&& final(registry).entries@ == old(registry).entries@ + registrations(
                action_entries(rows, addrs.actions@, init, addrs.menu, 3),
            )
            &&& !row_present(*old(group), m.all)
            &&& exists|p: SplicePlan|
                valid_plan(*old(group), SpliceAnchor::SortChestRow, p) && spliced(
                    *final(group),
                    *old(group),
                    p,
                    OPTION_INDEX,
                    m.all,
                    addrs.menu,
                )
        },
{
    if !enabled {
        return None;
    }
    let init = group.initial_state;
    if init == 0 {
        return None;
    }
    let mut rows: Vec<MenuRow> = Vec::new();
    rows.push(MenuRow { index: 1, message_id: m.golden, is_default: false, action: Some(golden) });
    rows.push(MenuRow { index: 2, message_id: m.remembrances, is_default: false, action: Some(remembrance) });
    rows.push(MenuRow { index: 99, message_id: m.cancel, is_default: true, action: None });
    assert(rows@ =~= consume_rows(*m, golden, remembrance));
    if !splice_option_anchored(group, SpliceAnchor::SortChestRow, OPTION_INDEX, m.all, addrs.menu) {
        return None;
    }
    let sub = link_from_rows_self_return(&rows, addrs.menu, addrs.branch, &addrs.actions, init, registry);
    Some(sub)
}

} // verus!

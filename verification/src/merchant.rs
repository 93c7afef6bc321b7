//! The "Acquire Bell Bearing" row spliced into merchant shop menus: which
//! menus qualify, which merchant a menu belongs to, and the conditional row,
//! award state and dispatch transition that are added.

use vstd::prelude::*;
use vstd::slice::slice_to_vec;
use crate::esd::{
    lemma_int_expr_value,
    add_talk_list_data, add_talk_list_data_alt, add_talk_list_data_if, arg_int, award_item_lot,
    clear_talk_list_data, event_arg_int, flag_cleared_expr, int_expr, make_flag_cleared_expression,
    make_int_expression, make_range_pattern, make_talk_list_result_expression, open_regular_shop,
    open_sell_shop, range_pattern, talk_list_result_expr, Command, Event, State, StateGroup,
    Transition, TRUE_EXPR,
};
use crate::splice::{find_insert_point, is_insert_point, state_dispatch, state_has_dispatch};
use crate::menu::{is_event, is_plain_transition};

verus! {

/// Menu group id of Kalé's talk menu, unique to her.
pub const KALE_GROUP: i32 = 2147483596;
/// Shop-menu group ids shared by the other merchants' talk scripts.
pub const MENU_GROUP_3603: i32 = 2147483603;
pub const MENU_GROUP_3604: i32 = 2147483604;

pub const MSG_BUY: i32 = 20000010;
pub const MSG_SELL: i32 = 20000011;
pub const MSG_LEAVE: i32 = 20000009;
pub const MSG_ACQUIRE_BELL_BEARING: i32 = 26000150;

/// Upper bound on the bytes scanned for a merchant's range literal.
pub const MAX_IDENTIFY_SCAN: usize = 0x20_0000;

/// A bell-bearing merchant: the `OpenRegularShop` range baked into its talk
/// script, and the item lot and event flag of its bell bearing.
#[derive(Clone, Copy, Debug, PartialEq, Eq, Structural)]
pub struct Merchant {
    pub range_start: i32,
    pub range_end: i32,
    pub item_lot: i32,
    pub event_flag: i32,
}

/// Number of purchasable bell-bearing merchants.
pub const MERCHANT_COUNT: usize = 19;

/// The merchant table (Kalé first). Merchants count up in steps of 25 from
/// range 100500; the cut Nomadic Merchant (range 100850) is absent.
pub open spec fn spec_merchant(i: int) -> Merchant {
    if i == 0 {
        Merchant { range_start: 100500, range_end: 100524, item_lot: 110410, event_flag: 400049 }
    } else {
        let k = if i < 14 { i } else { i + 1 };
        Merchant {
            range_start: (100500 + 25 * k) as i32,
            range_end: (100524 + 25 * k) as i32,
            item_lot: (119000 + 5 * (k - 1)) as i32,
            event_flag: (400900 + k) as i32,
        }
    }
}

/// Each merchant's bell bearing follows its shop range: for every merchant
/// after Kalé the range is 25 ids wide and starts at 100525 or later in steps
/// of 25, the item lot is 119000 plus 5 per step, the event flag 400901 plus
/// 1 per step; the ranges rise strictly, and the range at 100850 (a cut
/// merchant) is skipped. Kalé has range 100500..=100524, lot 110410 and flag
/// 400049.
pub proof fn law_merchant_table(i: int, j: int)
    requires
        0 <= i < j < MERCHANT_COUNT,
    ensures
        ({
            let m = spec_merchant(j);
            let steps = (m.range_start - 100525) / 25;
            &&& (m.range_start - 100525) % 25 == 0
            &&& m.range_start >= 100525
            &&& m.range_end == m.range_start + 24
            &&& m.item_lot == 119000 + 5 * steps
            &&& m.event_flag == 400901 + steps
            &&& m.range_start != 100850
        }),
        spec_merchant(i).range_start < spec_merchant(j).range_start,
        spec_merchant(0) == (Merchant { range_start: 100500, range_end: 100524, item_lot: 110410, event_flag: 400049 }),
{
    let k = if j < 14 { j } else { j + 1 };
    let m = spec_merchant(j);
    assert(m.range_start - 100525 == 25 * (k - 1));
    assert((25 * (k - 1)) / 25 == k - 1) by (nonlinear_arith)
        requires
            k >= 1,
    ;
    assert((25 * (k - 1)) % 25 == 0) by (nonlinear_arith)
        requires
            k >= 1,
    ;
}

pub fn merchant(i: usize) -> (m: Merchant)
    requires
        i < MERCHANT_COUNT,
    ensures
        m == spec_merchant(i as int),
{
    if i == 0 {
        Merchant { range_start: 100500, range_end: 100524, item_lot: 110410, event_flag: 400049 }
    } else {
        let k: i32 = if i < 14 { i as i32 } else { i as i32 + 1 };
        Merchant {
            range_start: 100500 + 25 * k,
            range_end: 100524 + 25 * k,
            item_lot: 119000 + 5 * (k - 1),
            event_flag: 400900 + k,
        }
    }
}

/// `pat` occurs in `bytes` at position `i`.
pub open spec fn occurs_at(bytes: Seq<u8>, pat: Seq<u8>, i: int) -> bool {
    0 <= i && i + pat.len() <= bytes.len() && bytes.subrange(i, i + pat.len()) == pat
}

/// The earliest position of `pat` in `bytes`, if any (`windows().position()`).
#[verifier::opaque]
pub open spec fn first_occurrence(bytes: Seq<u8>, pat: Seq<u8>) -> Option<int> {
    if exists|i: int| #[trigger] occurs_at(bytes, pat, i) {
        Some(choose|i: int| #[trigger] occurs_at(bytes, pat, i) && forall|k: int| 0 <= k < i ==> !occurs_at(bytes, pat, k))
    } else {
        None
    }
}

/// Merchant `i`'s baked range literal `OpenRegularShop(start, end)`.
#[verifier::opaque]
pub open spec fn merchant_literal(i: int) -> Seq<u8> {
    range_pattern(spec_merchant(i).range_start, spec_merchant(i).range_end)
}

/// Where `bytes` (which starts at address `base`) first holds merchant `i`'s
/// range literal, as an address.
pub open spec fn literal_addr(bytes: Seq<u8>, base: int, i: int) -> Option<int> {
    match first_occurrence(bytes, merchant_literal(i)) {
        Some(r) => Some(base + r),
        None => None,
    }
}

/// The earliest position of `pat` in `bytes`.
pub fn find_pattern(bytes: &[u8], pat: &[u8]) -> (r: Option<usize>)
    requires
        pat.len() > 0,
    ensures
        match r {
            Some(i) => first_occurrence(bytes@, pat@) == Some(i as int) && i + pat.len() <= bytes.len(),
            None => first_occurrence(bytes@, pat@) is None,
        },
{
    proof {
        reveal(first_occurrence);
    }
    if pat.len() > bytes.len() {
        assert forall|i: int| !#[trigger] occurs_at(bytes@, pat@, i) by {}
        return None;
    }
    let last = bytes.len() - pat.len();
    let mut i: usize = 0;
    while i <= last
        invariant
            pat.len() > 0,
            bytes.len() >= pat.len(),
            last == bytes.len() - pat.len(),
            i <= last + 1,
            forall|k: int| 0 <= k < i ==> !#[trigger] occurs_at(bytes@, pat@, k),
        decreases last + 1 - i,
    {
        let mut j: usize = 0;
        let mut eq = true;
        while j < pat.len()
            invariant
                i <= last,
                last == bytes.len() - pat.len(),
                j <= pat.len(),
                eq ==> forall|t: int| 0 <= t < j ==> bytes@[i + t] == pat@[t],
                !eq ==> !occurs_at(bytes@, pat@, i as int),
            decreases pat.len() - j,
        {
            if eq && bytes[i + j] != pat[j] {
                eq = false;
                assert(bytes@.subrange(i as int, i + pat@.len())[j as int] != pat@[j as int]);
            }
            j = j + 1;
        }
        if eq {
            assert(bytes@.subrange(i as int, i + pat@.len()) =~= pat@);
            proof {
                reveal(first_occurrence);
                let ii = i as int;
                assert(occurs_at(bytes@, pat@, ii));
                let c = choose|c: int| #[trigger] occurs_at(bytes@, pat@, c) && forall|k: int| 0 <= k < c ==> !occurs_at(bytes@, pat@, k);
                if c < ii {
                    assert(!occurs_at(bytes@, pat@, c));
                }
                if ii < c {
                    assert(!occurs_at(bytes@, pat@, ii));
                }
                assert(c == ii);
                assert(first_occurrence(bytes@, pat@) == Some(ii));
            }
            return Some(i);
        }
        i = i + 1;
    }
    assert forall|k: int| !#[trigger] occurs_at(bytes@, pat@, k) by {
        if 0 <= k < i {
        }
    }
    proof {
        reveal(first_occurrence);
    }
    None
}

/// The earliest position at or after `start` where `pat` occurs in `bytes`.
pub open spec fn first_occurrence_from(bytes: Seq<u8>, pat: Seq<u8>, start: int) -> Option<int>
    decreases bytes.len() + 1 - start,
{
    if start + pat.len() <= bytes.len() {
        if occurs_at(bytes, pat, start) {
            Some(start)
        } else {
            first_occurrence_from(bytes, pat, start + 1)
        }
    } else {
        None
    }
}

/// What [`first_occurrence_from`] finds: the least position at or after
/// `start` where `pat` occurs.
pub proof fn lemma_first_occurrence_from(bytes: Seq<u8>, pat: Seq<u8>, start: int)
    ensures
        match first_occurrence_from(bytes, pat, start) {
            Some(r) => start <= r && occurs_at(bytes, pat, r) && forall|k: int|
                start <= k < r ==> !#[trigger] occurs_at(bytes, pat, k),
            None => forall|k: int| start <= k ==> !#[trigger] occurs_at(bytes, pat, k),
        },
    decreases bytes.len() + 1 - start,
{
    if start + pat.len() <= bytes.len() {
        if !occurs_at(bytes, pat, start) {
            lemma_first_occurrence_from(bytes, pat, start + 1);
        }
    }
}

/// The earliest position of `pat` in `bytes` at or after `start`.
pub fn find_pattern_from(bytes: &[u8], pat: &[u8], start: usize) -> (r: Option<usize>)
    requires
        pat.len() > 0,
    ensures
        match r {
            Some(i) => first_occurrence_from(bytes@, pat@, start as int) == Some(i as int) && i + pat.len()
                <= bytes.len(),
            None => first_occurrence_from(bytes@, pat@, start as int) is None,
        },
{
    if pat.len() > bytes.len() {
        return None;
    }
    let last = bytes.len() - pat.len();
    let mut i: usize = start;
    while i <= last
        invariant
            pat.len() > 0,
            bytes.len() >= pat.len(),
            last == bytes.len() - pat.len(),
            start <= i,
            first_occurrence_from(bytes@, pat@, i as int) == first_occurrence_from(bytes@, pat@, start as int),
        decreases last + 1 - i,
    {
        let mut j: usize = 0;
        let mut eq = true;
        while j < pat.len()
            invariant
                i <= last,
                last == bytes.len() - pat.len(),
                j <= pat.len(),
                eq ==> forall|t: int| 0 <= t < j ==> bytes@[i + t] == pat@[t],
                !eq ==> !occurs_at(bytes@, pat@, i as int),
            decreases pat.len() - j,
        {
            if eq && bytes[i + j] != pat[j] {
                eq = false;
                assert(bytes@.subrange(i as int, i + pat@.len())[j as int] != pat@[j as int]);
            }
            j = j + 1;
        }
        if eq {
            assert(bytes@.subrange(i as int, i + pat@.len()) =~= pat@);
            return Some(i);
        }
        i = i + 1;
    }
    None
}

/// The lowest address above `group_addr` at which `bytes` (which starts at
/// address `base`) holds merchant `i`'s range literal.
pub open spec fn literal_addr_above(bytes: Seq<u8>, base: int, i: int, group_addr: int) -> Option<int> {
    let start = if group_addr >= base { group_addr - base + 1 } else { 0 };
    match first_occurrence_from(bytes, merchant_literal(i), start) {
        Some(r) => Some(base + r),
        None => None,
    }
}

/// `(addr, i)` is the lowest range literal above `group_addr` in `bytes`:
/// merchant `i`'s lowest literal above `group_addr` lies at `addr`, every
/// merchant's lowest literal above `group_addr` lies at `addr` or higher, and
/// no earlier merchant's lies at `addr` itself.
pub open spec fn is_best_match(bytes: Seq<u8>, base: int, group_addr: int, addr: int, i: int) -> bool {
    &&& 0 <= i < MERCHANT_COUNT
    &&& literal_addr_above(bytes, base, i, group_addr) == Some(addr)
    &&& forall|k: int|
        0 <= k < MERCHANT_COUNT ==> match #[trigger] literal_addr_above(bytes, base, k, group_addr) {
            Some(a) => addr <= a && (a == addr ==> i <= k),
            None => true,
        }
}

/// The lowest address above `group_addr` holding merchant `i`'s range
/// literal in `bytes`.
fn literal_addr_exec(bytes: &[u8], base: usize, i: usize, group_addr: usize) -> (r: Option<usize>)
    requires
        base + bytes.len() <= usize::MAX,
        i < MERCHANT_COUNT,
    ensures
        match r {
            Some(a) => literal_addr_above(bytes@, base as int, i as int, group_addr as int) == Some(a as int)
                && a > group_addr,
            None => literal_addr_above(bytes@, base as int, i as int, group_addr as int) is None,
        },
{
    let m = merchant(i);
    let pat = make_range_pattern(m.range_start, m.range_end);
    proof {
        reveal(merchant_literal);
        assert(pat@ == merchant_literal(i as int));
    }
    let start: usize = if group_addr >= base {
        if group_addr - base >= bytes.len() {
            return None;
        }
        group_addr - base + 1
    } else {
        0
    };
    match find_pattern_from(bytes, &pat, start) {
        Some(rel) => {
            proof {
                lemma_first_occurrence_from(bytes@, pat@, start as int);
            }
            Some(base + rel)
        },
        None => None,
    }
}

/// Finds, among the merchants whose range literal occurs in `bytes` (which
/// starts at address `base`) above `group_addr`, the one whose literal lies
/// lowest there; ties go to the earlier merchant. Returns the literal's
/// address and the merchant's table index.
pub fn find_first_match_after(bytes: &[u8], base: usize, group_addr: usize) -> (r: Option<(usize, usize)>)
    requires
        base + bytes.len() <= usize::MAX,
    ensures
        match r {
            Some((addr, i)) => is_best_match(bytes@, base as int, group_addr as int, addr as int, i as int),
            None => forall|k: int|
                0 <= k < MERCHANT_COUNT ==> #[trigger] literal_addr_above(bytes@, base as int, k, group_addr as int)
                    is None,
        },
{
    let mut best: Option<(usize, usize)> = None;
    for i in 0..MERCHANT_COUNT
        invariant
            base + bytes.len() <= usize::MAX,
            match best {
                Some((addr, bi)) => {
                    &&& bi < i
                    &&& literal_addr_above(bytes@, base as int, bi as int, group_addr as int) == Some(addr as int)
                    &&& addr > group_addr
                    &&& forall|k: int|
                        0 <= k < i ==> match #[trigger] literal_addr_above(bytes@, base as int, k, group_addr as int) {
                            Some(a) => addr <= a && (a == addr ==> bi <= k),
                            None => true,
                        }
                },
                None => forall|k: int|
                    0 <= k < i ==> #[trigger] literal_addr_above(bytes@, base as int, k, group_addr as int) is None,
            },
    {
        match literal_addr_exec(bytes, base, i, group_addr) {
            Some(abs) => {
                if abs > group_addr {
                    match best {
                        Some((a, _)) => {
                            if a > abs {
                                best = Some((abs, i));
                            }
                        },
                        None => {
                            best = Some((abs, i));
                        },
                    }
                }
            },
            None => {},
        }
    }
    best
}

/// The menu group ids that can belong to a bell-bearing merchant.
pub open spec fn is_merchant_group(id: i32) -> bool {
    id == KALE_GROUP || id == MENU_GROUP_3603 || id == MENU_GROUP_3604
}

/// Some entry or exit event of `s` runs `c`.
pub open spec fn state_has_command(s: State, c: Command) -> bool {
    (exists|j: int| 0 <= j < s.entry_events@.len() && (#[trigger] s.entry_events@[j]).command == c)
        || (exists|j: int| 0 <= j < s.exit_events@.len() && (#[trigger] s.exit_events@[j]).command == c)
}

/// Some state of `g` runs `c`.
pub open spec fn group_has_command(g: StateGroup, c: Command) -> bool {
    exists|i: int| 0 <= i < g.states@.len() && #[trigger] state_has_command(g.states@[i], c)
}

/// `e` is the plain row `AddTalkListData(_, msg, _)`.
pub open spec fn is_row_msg(e: Event, msg: i32) -> bool {
    e.command == add_talk_list_data() && arg_int(e, 1) == msg
}

/// `s` lists the plain row `msg`.
pub open spec fn state_has_row(s: State, msg: i32) -> bool {
    exists|j: int| 0 <= j < s.entry_events@.len() && #[trigger] is_row_msg(s.entry_events@[j], msg)
}

/// `s` clears the talk list on entry.
pub open spec fn state_clears(s: State) -> bool {
    exists|j: int| 0 <= j < s.entry_events@.len() && (#[trigger] s.entry_events@[j]).command == clear_talk_list_data()
}

/// The message of a row event, in any of the three `AddTalkListData` forms.
pub open spec fn row_message(e: Event) -> int {
    if e.command == add_talk_list_data() {
        arg_int(e, 1)
    } else if e.command == add_talk_list_data_if() || e.command == add_talk_list_data_alt() {
        arg_int(e, 2)
    } else {
        -1
    }
}

/// The row index of a row event, in any of the three forms.
pub open spec fn row_index(e: Event) -> int {
    if e.command == add_talk_list_data() {
        arg_int(e, 0)
    } else if e.command == add_talk_list_data_if() || e.command == add_talk_list_data_alt() {
        arg_int(e, 1)
    } else {
        -1
    }
}

/// `s` already lists the "Acquire Bell Bearing" row.
pub open spec fn has_acquire_row(s: State) -> bool {
    exists|j: int| 0 <= j < s.entry_events@.len() && row_message(#[trigger] s.entry_events@[j]) == MSG_ACQUIRE_BELL_BEARING
}

/// Some row of `s` uses index `x`.
pub open spec fn index_used(s: State, x: int) -> bool {
    exists|j: int| 0 <= j < s.entry_events@.len() && row_index(#[trigger] s.entry_events@[j]) == x
}

/// `x` is the lowest row index in 3..=8 that no row of `s` uses.
pub open spec fn is_first_free(s: State, x: int) -> bool {
    &&& 3 <= x <= 8
    &&& !index_used(s, x)
    &&& forall|y: int| 3 <= y < x ==> #[trigger] index_used(s, y)
}

/// State `i` is the first state of `g` satisfying `p`.
pub open spec fn is_first_state(g: StateGroup, i: int, p: spec_fn(State) -> bool) -> bool {
    &&& 0 <= i < g.states@.len()
    &&& p(g.states@[i])
    &&& forall|k: int| 0 <= k < i ==> !p(#[trigger] g.states@[k])
}

/// Where the bell-bearing row goes: the menu state (first listing Buy), the
/// dispatch state, the menu-reset state (first clearing the talk list), the
/// position of the Leave row in the menu state, the row index, and where the
/// row's dispatch transition goes (before the first `if 1` fallback).
#[derive(Clone, Copy, Debug, PartialEq, Eq, Structural)]
pub struct MerchantPlan {
    pub menu_state: usize,
    pub dispatch_state: usize,
    pub reset_state: usize,
    pub leave_index: usize,
    pub index: i32,
    pub insert_at: usize,
}

/// `p` is the plan for merchant menu `g`: the feature is on, `g` is a shop
/// menu group that opens both the regular and the sell shop, its menu state
/// lists Buy and Sell but not yet the bell-bearing row, and every part of the
/// plan is the first one of its kind.
pub open spec fn merchant_plan(g: StateGroup, enabled: bool, p: MerchantPlan) -> bool {
    let menu = g.states@[p.menu_state as int];
    &&& enabled
    &&& is_merchant_group(g.id)
    &&& group_has_command(g, open_regular_shop())
    &&& group_has_command(g, open_sell_shop())
    &&& is_first_state(g, p.menu_state as int, |s: State| state_has_row(s, MSG_BUY))
    &&& state_has_row(menu, MSG_SELL)
    &&& !has_acquire_row(menu)
    &&& is_first_state(g, p.dispatch_state as int, |s: State| state_has_dispatch(s))
    &&& is_first_state(g, p.reset_state as int, |s: State| state_clears(s))
    &&& 0 <= p.leave_index < menu.entry_events@.len()
    &&& is_row_msg(menu.entry_events@[p.leave_index as int], MSG_LEAVE)
    &&& forall|j: int| 0 <= j < p.leave_index ==> !is_row_msg(#[trigger] menu.entry_events@[j], MSG_LEAVE)
    &&& is_first_free(menu, p.index as int)
    &&& is_insert_point(g.states@[p.dispatch_state as int].transitions@, p.insert_at as int)
}

fn state_has_command_exec(s: &State, c: Command) -> (r: bool)
    ensures
        r == state_has_command(*s, c),
{
    for j in 0..s.entry_events.len()
        invariant
            forall|b: int| 0 <= b < j ==> (#[trigger] s.entry_events@[b]).command != c,
    {
        if s.entry_events[j].command == c {
            return true;
        }
    }
    for j in 0..s.exit_events.len()
        invariant
            forall|b: int| 0 <= b < s.entry_events@.len() ==> (#[trigger] s.entry_events@[b]).command != c,
            forall|b: int| 0 <= b < j ==> (#[trigger] s.exit_events@[b]).command != c,
    {
        if s.exit_events[j].command == c {
            return true;
        }
    }
    false
}

/// Whether some state of the group runs `c` on entry or exit.
pub fn group_has_command_exec(g: &StateGroup, c: Command) -> (r: bool)
    ensures
        r == group_has_command(*g, c),
{
    for i in 0..g.states.len()
        invariant
            forall|k: int| 0 <= k < i ==> !#[trigger] state_has_command(g.states@[k], c),
    {
        if state_has_command_exec(&g.states[i], c) {
            return true;
        }
    }
    false
}

fn is_row_msg_exec(e: &Event, msg: i32) -> (r: bool)
    ensures
        r == is_row_msg(*e, msg),
{
    e.command == add_talk_list_data() && event_arg_int(e, 1) == msg
}

fn state_has_row_exec(s: &State, msg: i32) -> (r: bool)
    ensures
        r == state_has_row(*s, msg),
{
    for j in 0..s.entry_events.len()
        invariant
            forall|b: int| 0 <= b < j ==> !#[trigger] is_row_msg(s.entry_events@[b], msg),
    {
        if is_row_msg_exec(&s.entry_events[j], msg) {
            return true;
        }
    }
    false
}

fn state_clears_exec(s: &State) -> (r: bool)
    ensures
        r == state_clears(*s),
{
    for j in 0..s.entry_events.len()
        invariant
            forall|b: int| 0 <= b < j ==> (#[trigger] s.entry_events@[b]).command != clear_talk_list_data(),
    {
        if s.entry_events[j].command == clear_talk_list_data() {
            return true;
        }
    }
    false
}

fn row_message_exec(e: &Event) -> (r: i32)
    ensures
        r as int == row_message(*e),
{
    if e.command == add_talk_list_data() {
        event_arg_int(e, 1)
    } else if e.command == add_talk_list_data_if() || e.command == add_talk_list_data_alt() {
        event_arg_int(e, 2)
    } else {
        -1
    }
}

fn row_index_exec(e: &Event) -> (r: i32)
    ensures
        r as int == row_index(*e),
{
    if e.command == add_talk_list_data() {
        event_arg_int(e, 0)
    } else if e.command == add_talk_list_data_if() || e.command == add_talk_list_data_alt() {
        event_arg_int(e, 1)
    } else {
        -1
    }
}

fn has_acquire_row_exec(s: &State) -> (r: bool)
    ensures
        r == has_acquire_row(*s),
{
    for j in 0..s.entry_events.len()
        invariant
            forall|b: int| 0 <= b < j ==> row_message(#[trigger] s.entry_events@[b]) != MSG_ACQUIRE_BELL_BEARING,
    {
        if row_message_exec(&s.entry_events[j]) == MSG_ACQUIRE_BELL_BEARING {
            return true;
        }
    }
    false
}

fn index_used_exec(s: &State, x: i32) -> (r: bool)
    ensures
        r == index_used(*s, x as int),
{
    for j in 0..s.entry_events.len()
        invariant
            forall|b: int| 0 <= b < j ==> row_index(#[trigger] s.entry_events@[b]) != x,
    {
        if row_index_exec(&s.entry_events[j]) == x {
            return true;
        }
    }
    false
}

/// The first free row index in 3..=8 of the menu state, if any.
pub fn first_free_index(s: &State) -> (r: Option<i32>)
    ensures
        match r {
            Some(x) => is_first_free(*s, x as int),
            None => forall|y: int| 3 <= y <= 8 ==> #[trigger] index_used(*s, y),
        },
{
    let mut x: i32 = 3;
    while x <= 8
        invariant
            3 <= x <= 9,
            forall|y: int| 3 <= y < x ==> #[trigger] index_used(*s, y),
        decreases 9 - x,
    {
        if !index_used_exec(s, x) {
            return Some(x);
        }
        x = x + 1;
    }
    None
}

/// Position of the first Leave row of the menu state, if any.
pub fn find_leave_row_index(s: &State) -> (r: Option<usize>)
    ensures
        match r {
            Some(j) => 0 <= j < s.entry_events@.len() && is_row_msg(s.entry_events@[j as int], MSG_LEAVE)
                && forall|b: int| 0 <= b < j ==> !is_row_msg(#[trigger] s.entry_events@[b], MSG_LEAVE),
            None => forall|b: int| 0 <= b < s.entry_events@.len() ==> !is_row_msg(#[trigger] s.entry_events@[b], MSG_LEAVE),
        },
{
    for j in 0..s.entry_events.len()
        invariant
            forall|b: int| 0 <= b < j ==> !is_row_msg(#[trigger] s.entry_events@[b], MSG_LEAVE),
    {
        if is_row_msg_exec(&s.entry_events[j], MSG_LEAVE) {
            return Some(j);
        }
    }
    None
}

proof fn lemma_first_unique(g: StateGroup, i: int, j: int, p: spec_fn(State) -> bool)
    requires
        is_first_state(g, i, p),
        is_first_state(g, j, p),
    ensures
        i == j,
{
    if i < j {
        assert(!p(g.states@[i]));
    }
    if j < i {
        assert(!p(g.states@[j]));
    }
}

/// The first state satisfying one of the plan's state predicates.
fn first_state_with(g: &StateGroup, which: u8) -> (r: Option<usize>)
    requires
        which < 3,
    ensures
        match r {
            Some(i) => is_first_state(*g, i as int, plan_pred(which)),
            None => forall|k: int| 0 <= k < g.states@.len() ==> !plan_pred(which)(#[trigger] g.states@[k]),
        },
{
    for i in 0..g.states.len()
        invariant
            which < 3,
            forall|k: int| 0 <= k < i ==> !plan_pred(which)(#[trigger] g.states@[k]),
    {
        let hit = if which == 0 {
            state_has_row_exec(&g.states[i], MSG_BUY)
        } else if which == 1 {
            state_dispatch(&g.states[i])
        } else {
            state_clears_exec(&g.states[i])
        };
        if hit {
            return Some(i);
        }
    }
    None
}

/// The plan's state predicates: listing Buy, dispatching on the talk-list
/// result, clearing the talk list.
pub open spec fn plan_pred(which: u8) -> spec_fn(State) -> bool {
    if which == 0 {
        |s: State| state_has_row(s, MSG_BUY)
    } else if which == 1 {
        |s: State| state_has_dispatch(s)
    } else {
        |s: State| state_clears(s)
    }
}

/// Decides where the bell-bearing row goes in a merchant menu, or that the
/// group is not a merchant menu to patch (feature off, another group, no shop
/// commands, no Buy/Sell rows, row already there, no dispatch, reset or Leave
/// row, or no free row index).
pub fn plan_merchant_patch(group: &StateGroup, enabled: bool) -> (r: Option<MerchantPlan>)
    ensures
        match r {
            Some(p) => merchant_plan(*group, enabled, p),
            None => forall|p: MerchantPlan| !#[trigger] merchant_plan(*group, enabled, p),
        },
{
    let g = group;
    if !enabled || !(g.id == KALE_GROUP || g.id == MENU_GROUP_3603 || g.id == MENU_GROUP_3604) {
        return None;
    }
    if !group_has_command_exec(g, open_regular_shop()) || !group_has_command_exec(g, open_sell_shop()) {
        return None;
    }
    let m = match first_state_with(g, 0) {
        Some(m) => m,
        None => {
            assert forall|p: MerchantPlan| !#[trigger] merchant_plan(*g, enabled, p) by {
                if merchant_plan(*g, enabled, p) {
                    assert(plan_pred(0)(g.states@[p.menu_state as int]));
                }
            }
            return None;
        },
    };
    let ghost ms = g.states@[m as int];
    let menu = &g.states[m];
    if !state_has_row_exec(menu, MSG_SELL) || has_acquire_row_exec(menu) {
        assert forall|p: MerchantPlan| !#[trigger] merchant_plan(*g, enabled, p) by {
            if merchant_plan(*g, enabled, p) {
                lemma_first_unique(*g, p.menu_state as int, m as int, plan_pred(0));
            }
        }
        return None;
    }
    let d = match first_state_with(g, 1) {
        Some(d) => d,
        None => {
            assert forall|p: MerchantPlan| !#[trigger] merchant_plan(*g, enabled, p) by {
                if merchant_plan(*g, enabled, p) {
                    assert(plan_pred(1)(g.states@[p.dispatch_state as int]));
                }
            }
            return None;
        },
    };
    let rs = match first_state_with(g, 2) {
        Some(rs) => rs,
        None => {
            assert forall|p: MerchantPlan| !#[trigger] merchant_plan(*g, enabled, p) by {
                if merchant_plan(*g, enabled, p) {
                    assert(plan_pred(2)(g.states@[p.reset_state as int]));
                }
            }
            return None;
        },
    };
    let leave = match find_leave_row_index(menu) {
        Some(j) => j,
        None => {
            assert forall|p: MerchantPlan| !#[trigger] merchant_plan(*g, enabled, p) by {
                if merchant_plan(*g, enabled, p) {
                    lemma_first_unique(*g, p.menu_state as int, m as int, plan_pred(0));
                }
            }
            return None;
        },
    };
    let index = match first_free_index(menu) {
        Some(x) => x,
        None => {
            assert forall|p: MerchantPlan| !#[trigger] merchant_plan(*g, enabled, p) by {
                if merchant_plan(*g, enabled, p) {
                    lemma_first_unique(*g, p.menu_state as int, m as int, plan_pred(0));
                    assert(index_used(ms, p.index as int));
                }
            }
            return None;
        },
    };
    let k = find_insert_point(&g.states[d].transitions);
    let p = MerchantPlan { menu_state: m, dispatch_state: d, reset_state: rs, leave_index: leave, index, insert_at: k };
    assert(is_first_state(*g, m as int, |s: State| state_has_row(s, MSG_BUY)));
    assert(is_first_state(*g, d as int, |s: State| state_has_dispatch(s)));
    assert(is_first_state(*g, rs as int, |s: State| state_clears(s)));
    Some(p)
}

/// The bell-bearing row `AddTalkListData(GetEventFlag(flag) == 0, index,
/// "Acquire Bell Bearing", -1)`, shown while the merchant's flag is cleared.
pub open spec fn bell_row_args(index: i32, flag: i32) -> Seq<Seq<u8>> {
    seq![flag_cleared_expr(flag), int_expr(index), int_expr(MSG_ACQUIRE_BELL_BEARING), int_expr(-1i32)]
}

/// The one-shot award state at `addr`: it runs `AwardItemLot(lot)` and
/// returns to the menu-reset state at `reset`.
pub open spec fn is_award_state(s: State, addr: u64, lot: i32, reset: u64) -> bool {
    &&& s.addr == addr
    &&& s.id == 0
    &&& s.entry_events@.len() == 1
    &&& is_event(s.entry_events@[0], award_item_lot(), seq![int_expr(lot)])
    &&& s.transitions@.len() == 1
    &&& is_plain_transition(s.transitions@[0], reset, TRUE_EXPR@)
    &&& s.exit_events@.len() == 0
}

/// `new` is `old` with the bell-bearing row inserted before the Leave row and
/// its dispatch transition (to the award state at `award_addr`) inserted at
/// the plan's insert point; nothing else changes.
pub open spec fn bell_spliced(new: StateGroup, old: StateGroup, p: MerchantPlan, m: Merchant, award_addr: u64) -> bool {
    let mi = p.menu_state as int;
    let di = p.dispatch_state as int;
    let li = p.leave_index as int;
    let k = p.insert_at as int;
    let oe = old.states@[mi].entry_events@;
    let ne = new.states@[mi].entry_events@;
    let ot = old.states@[di].transitions@;
    let nt = new.states@[di].transitions@;
    &&& new.id == old.id
    &&& new.initial_state == old.initial_state
    &&& new.states@.len() == old.states@.len()
    &&& forall|i: int| 0 <= i < old.states@.len() && i != mi && i != di ==> #[trigger] new.states@[i] == old.states@[i]
    &&& new.states@[mi].addr == old.states@[mi].addr
    &&& new.states@[di].addr == old.states@[di].addr
    &&& new.states@[mi].id == old.states@[mi].id
    &&& new.states@[di].id == old.states@[di].id
    &&& new.states@[mi].exit_events == old.states@[mi].exit_events
    &&& new.states@[di].exit_events == old.states@[di].exit_events
    &&& ne.len() == oe.len() + 1
    &&& forall|j: int| 0 <= j < li ==> #[trigger] ne[j] == oe[j]
    &&& is_event(ne[li], add_talk_list_data_if(), bell_row_args(p.index, m.event_flag))
    &&& forall|j: int| li < j < ne.len() ==> #[trigger] ne[j] == oe[j - 1]
    &&& nt.len() == ot.len() + 1
    &&& forall|j: int| 0 <= j < k ==> #[trigger] nt[j] == ot[j]
    &&& is_plain_transition(nt[k], award_addr, talk_list_result_expr(p.index))
    &&& forall|j: int| k < j < nt.len() ==> #[trigger] nt[j] == ot[j - 1]
    &&& mi != di ==> new.states@[mi].transitions == old.states@[mi].transitions
    &&& mi != di ==> new.states@[di].entry_events == old.states@[di].entry_events
}

/// The key under which a patched merchant menu is remembered.
pub open spec fn patch_key(g: StateGroup, m: Merchant) -> (i32, i32, i32) {
    (g.id, m.range_start, m.range_end)
}

fn key_present(patched: &Vec<(i32, i32, i32)>, key: (i32, i32, i32)) -> (r: bool)
    ensures
        r == patched@.contains(key),
{
    for i in 0..patched.len()
        invariant
            forall|k: int| 0 <= k < i ==> patched@[k] != key,
    {
        let e = patched[i];
        if e.0 == key.0 && e.1 == key.1 && e.2 == key.2 {
            assert(patched@[i as int] == key);
            return true;
        }
    }
    false
}

fn expr(b: &[u8]) -> (r: Vec<u8>)
    ensures
        r@ == b@,
{
    slice_to_vec(b)
}

/// Splices the bell-bearing row of merchant `mi` into the planned menu, with
/// its award state at `award_addr`, and remembers the menu in `patched`.
/// A menu already patched for this merchant changes nothing. Returns the
/// award state.
pub fn apply_merchant_patch(
    group: &mut StateGroup,
    plan: MerchantPlan,
    mi: usize,
    patched: &mut Vec<(i32, i32, i32)>,
    award_addr: u64,
) -> (r: Option<State>)
    requires
        merchant_plan(*old(group), true, plan),
        mi < MERCHANT_COUNT,
    ensures
        old(patched)@.contains(patch_key(*old(group), spec_merchant(mi as int))) ==> {
            &&& r is None
            &&& *final(group) == *old(group)
            &&& final(patched)@ == old(patched)@
        },
        !old(patched)@.contains(patch_key(*old(group), spec_merchant(mi as int))) ==> {
            &&& r matches Some(award) && is_award_state(
                award,
                award_addr,
                spec_merchant(mi as int).item_lot,
                old(group).states@[plan.reset_state as int].addr,
            )
            &&& bell_spliced(*final(group), *old(group), plan, spec_merchant(mi as int), award_addr)
            &&& final(patched)@ == old(patched)@.push(patch_key(*old(group), spec_merchant(mi as int)))
        },
{
    let m = merchant(mi);
    let key = (group.id, m.range_start, m.range_end);
    if key_present(patched, key) {
        return None;
    }
    let ghost g0 = *group;
    let reset_addr = group.states[plan.reset_state].addr;
    let mut row_args: Vec<Vec<u8>> = Vec::new();
    row_args.push(expr(&make_flag_cleared_expression(m.event_flag)));
    row_args.push(expr(&make_int_expression(plan.index)));
    row_args.push(expr(&make_int_expression(MSG_ACQUIRE_BELL_BEARING)));
    row_args.push(expr(&make_int_expression(-1)));
    let row_event = Event { command: add_talk_list_data_if(), args: row_args };
    let mut award_args: Vec<Vec<u8>> = Vec::new();
    award_args.push(expr(&make_int_expression(m.item_lot)));
    let mut award_events: Vec<Event> = Vec::new();
    award_events.push(Event { command: award_item_lot(), args: award_args });
    let mut award_transitions: Vec<Transition> = Vec::new();
    award_transitions.push(Transition { target: reset_addr, sub_transitions: Vec::new(), evaluator: expr(&TRUE_EXPR) });
    let award = State {
        addr: award_addr,
        id: 0,
        transitions: award_transitions,
        entry_events: award_events,
        exit_events: Vec::new(),
    };
    let dispatch = Transition {
        target: award_addr,
        sub_transitions: Vec::new(),
        evaluator: expr(&make_talk_list_result_expression(plan.index)),
    };
    group.states[plan.menu_state].entry_events.insert(plan.leave_index, row_event);
    group.states[plan.dispatch_state].transitions.insert(plan.insert_at, dispatch);
    patched.push(key);
    assert(bell_spliced(*group, g0, plan, m, award_addr));
    Some(award)
}

/// The merchant a menu belongs to: Kalé by her unique group id, any other by
/// the identity found from its range literal.
pub fn resolve_merchant(group_id: i32, identified: Option<usize>) -> (r: Option<usize>)
    ensures
        group_id == KALE_GROUP ==> r == Some(0usize),
        group_id != KALE_GROUP ==> r == identified,
{
    if group_id == KALE_GROUP {
        Some(0)
    } else {
        identified
    }
}

/// The bell-bearing patch is idempotent: once a merchant menu has been
/// patched, no plan exists for the patched group, so the patcher leaves it
/// alone from then on.
pub proof fn law_merchant_patch_idempotent(
    new: StateGroup,
    old: StateGroup,
    p: MerchantPlan,
    m: Merchant,
    award_addr: u64,
    enabled: bool,
    q: MerchantPlan,
)
    requires
        merchant_plan(old, true, p),
        bell_spliced(new, old, p, m, award_addr),
    ensures
        !merchant_plan(new, enabled, q),
{
    let mi = p.menu_state as int;
    let di = p.dispatch_state as int;
    let li = p.leave_index as int;
    let oe = old.states@[mi].entry_events@;
    let ne = new.states@[mi].entry_events@;
    if merchant_plan(new, enabled, q) {
        // The menu state of the patched group is still the first listing Buy.
        let b = choose|j: int| 0 <= j < oe.len() && #[trigger] is_row_msg(oe[j], MSG_BUY);
        let nb = if b < li { b } else { b + 1 };
        assert(ne[nb] == oe[b]);
        assert(is_row_msg(ne[nb], MSG_BUY));
        assert(state_has_row(new.states@[mi], MSG_BUY));
        assert forall|k: int| 0 <= k < mi implies !state_has_row(#[trigger] new.states@[k], MSG_BUY) by {
            assert(!state_has_row(old.states@[k], MSG_BUY));
            if k == di {
                assert(new.states@[k].entry_events == old.states@[k].entry_events);
                if state_has_row(new.states@[k], MSG_BUY) {
                    let w = choose|j: int|
                        0 <= j < new.states@[k].entry_events@.len() && #[trigger] is_row_msg(
                            new.states@[k].entry_events@[j],
                            MSG_BUY,
                        );
                    assert(is_row_msg(old.states@[k].entry_events@[w], MSG_BUY));
                }
            } else {
                assert(new.states@[k] == old.states@[k]);
            }
        }
        assert(is_first_state(new, mi, |s: State| state_has_row(s, MSG_BUY)));
        lemma_first_unique(new, q.menu_state as int, mi, |s: State| state_has_row(s, MSG_BUY));
        // ... and it now lists the bell-bearing row.
        lemma_int_expr_value(MSG_ACQUIRE_BELL_BEARING);
        assert(row_message(ne[li]) == MSG_ACQUIRE_BELL_BEARING);
        assert(has_acquire_row(new.states@[mi]));
    }
}

} // verus!

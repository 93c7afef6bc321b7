//! The grace-menu "ERQoL Settings" entry: a category list (QoL, Tweaks,
//! Silly), one toggle row per menu-visible knob of the registry (showing
//! `[ON]`/`[OFF]`), the boss-bar readout cycle row, and the message ids and
//! texts of those rows.

use vstd::prelude::*;
use crate::config::{
    apply_toggle, flag_key, spec_find_toggle, spec_flag_key, RuntimeToggles,
    flag_at, flag_category, flag_index, flag_label, flag_needs_reload, lemma_flag_at, lemma_flag_index, spec_flag_at,
    spec_flag_category, spec_flag_index, spec_flag_label, spec_flag_needs_reload, Category, Config, Flag,
    HpBarTracks, TOGGLE_COUNT,
};
use crate::esd::StateGroup;
use crate::menu::{
    MenuAddrs, action_entries, registrations,
    is_linked, is_menu_state, is_plain_transition, link, row_evaluator, set_option_target, ActionRegistry,
    LinkedSubMenu, MenuRow,
};
use crate::messages::{counter_after, lemma_counter_after, lemma_counter_after_wrap, MessageIdAllocator};
use crate::splice::{
    row_present, spliced, splice_option_anchored, state_has_anchor, state_has_dispatch, valid_plan, SpliceAnchor,
    SplicePlan,
};
use crate::text::{push_all, str_chars, string_from_chars};

verus! {

broadcast use vstd::string::group_string_axioms;

/// Row index of the entry in the grace menu.
pub const OPTION_INDEX: i32 = 72;
/// Message of every Cancel row.
pub const MSG_CANCEL: i32 = 69_990_003;
/// Action id of the boss-bar readout cycle row; knob rows use
/// `TOGGLE_ACTION_BASE` plus their registry position.
pub const HP_CYCLE_ACTION: u64 = 0x200;
pub const TOGGLE_ACTION_BASE: u64 = 0x100;

/// A knob row's text: `[ON]` or `[OFF]`, the label, and a restart note for
/// knobs that only take full effect after a restart.
pub open spec fn spec_menu_label(f: Flag, on: bool) -> Seq<char> {
    (if on { "[ON]"@ } else { "[OFF]"@ }) + " "@ + spec_flag_label(f) + (if spec_flag_needs_reload(f) {
        " (restart to change)"@
    } else {
        ""@
    })
}

/// A knob's row shows `[ON] ` when the knob is on and `[OFF] ` when it is off,
/// followed by the same text either way.
pub proof fn law_menu_label_state(f: Flag)
    ensures
        spec_menu_label(f, true).take(5) == seq!['[', 'O', 'N', ']', ' '],
        spec_menu_label(f, false).take(6) == seq!['[', 'O', 'F', 'F', ']', ' '],
        spec_menu_label(f, true).skip(5) == spec_menu_label(f, false).skip(6),
{
    reveal_strlit("[ON]");
    reveal_strlit("[OFF]");
    reveal_strlit(" ");
    let rest = spec_flag_label(f) + (if spec_flag_needs_reload(f) { " (restart to change)"@ } else { ""@ });
    assert(spec_menu_label(f, true) =~= seq!['[', 'O', 'N', ']', ' '] + rest);
    assert(spec_menu_label(f, false) =~= seq!['[', 'O', 'F', 'F', ']', ' '] + rest);
    assert((seq!['[', 'O', 'N', ']', ' '] + rest).take(5) =~= seq!['[', 'O', 'N', ']', ' ']);
    assert((seq!['[', 'O', 'N', ']', ' '] + rest).skip(5) =~= rest);
    assert((seq!['[', 'O', 'F', 'F', ']', ' '] + rest).take(6) =~= seq!['[', 'O', 'F', 'F', ']', ' ']);
    assert((seq!['[', 'O', 'F', 'F', ']', ' '] + rest).skip(6) =~= rest);
}

/// The current row text of knob `f`.
pub fn menu_label(cfg: &Config, f: Flag) -> (r: String)
    ensures
        r@ == spec_menu_label(f, cfg.flags.spec_get(f)),
{
    let on = cfg.flags.get(f);
    let mut out = str_chars(if on { "[ON]" } else { "[OFF]" });
    push_all(&mut out, str_chars(" ").as_slice());
    push_all(&mut out, str_chars(flag_label(f)).as_slice());
    push_all(&mut out, str_chars(if flag_needs_reload(f) { " (restart to change)" } else { "" }).as_slice());
    string_from_chars(out.as_slice())
}

/// The readout row's text.
pub open spec fn spec_hp_bar_label(t: HpBarTracks) -> Seq<char> {
    match t {
        HpBarTracks::Hp => "HP Bar Tracks: HP"@,
        HpBarTracks::Posture => "HP Bar Tracks: Posture"@,
    }
}

pub fn hp_bar_label(t: HpBarTracks) -> (r: String)
    ensures
        r@ == spec_hp_bar_label(t),
{
    match t {
        HpBarTracks::Hp => string_from_chars(str_chars("HP Bar Tracks: HP").as_slice()),
        HpBarTracks::Posture => string_from_chars(str_chars("HP Bar Tracks: Posture").as_slice()),
    }
}

/// The row message ids of the knobs, by registry position: allocated in
/// registry order for knobs shown in a menu, `-1` for the others.
pub open spec fn toggle_ids_from(next: i32, k: int) -> Seq<int>
    decreases k,
{
    if k <= 0 {
        Seq::empty()
    } else {
        let prev = toggle_ids_from(next, k - 1);
        let used = count_visible(k - 1);
        if spec_flag_category(spec_flag_at(k - 1)) is Some {
            prev.push(counter_after(next, used) as int)
        } else {
            prev.push(-1)
        }
    }
}

/// How many of the first `k` knobs are shown in a menu.
pub open spec fn count_visible(k: int) -> int
    decreases k,
{
    if k <= 0 {
        0
    } else {
        count_visible(k - 1) + if spec_flag_category(spec_flag_at(k - 1)) is Some { 1int } else { 0int }
    }
}

proof fn lemma_count_visible(k: int)
    requires
        0 <= k,
    ensures
        0 <= count_visible(k) <= k,
    decreases k,
{
    if k > 0 {
        lemma_count_visible(k - 1);
    }
}

/// Entry `k` of the allocated ids: the counter after the earlier visible
/// knobs for a visible knob, `-1` for a hidden one.
proof fn lemma_toggle_id_at(next: i32, n: int, k: int)
    requires
        0 <= k < n,
    ensures
        toggle_ids_from(next, n).len() == n,
        toggle_ids_from(next, n)[k] == if spec_flag_category(spec_flag_at(k)) is Some {
            counter_after(next, count_visible(k)) as int
        } else {
            -1
        },
    decreases n,
{
    lemma_toggle_ids_len(next, n - 1);
    if k < n - 1 {
        lemma_toggle_id_at(next, n - 1, k);
    }
}

proof fn lemma_toggle_ids_len(next: i32, n: int)
    requires
        0 <= n,
    ensures
        toggle_ids_from(next, n).len() == n,
    decreases n,
{
    if n > 0 {
        lemma_toggle_ids_len(next, n - 1);
    }
}

proof fn lemma_count_visible_grows(j: int, k: int)
    requires
        0 <= j < k,
        spec_flag_category(spec_flag_at(j)) is Some,
    ensures
        count_visible(j) < count_visible(k),
    decreases k - j,
{
    if k > j + 1 {
        lemma_count_visible_grows(j, k - 1);
    }
}

/// The message ids of two different menu-visible knobs differ, whatever the
/// allocator's counter held (it may wrap around).
pub proof fn law_toggle_ids_distinct(next: i32, j: int, k: int)
    requires
        0 <= j < k < TOGGLE_COUNT,
        spec_flag_category(spec_flag_at(j)) is Some,
        spec_flag_category(spec_flag_at(k)) is Some,
    ensures
        toggle_ids_from(next, TOGGLE_COUNT as int)[j] != toggle_ids_from(next, TOGGLE_COUNT as int)[k],
{
    lemma_toggle_id_at(next, TOGGLE_COUNT as int, j);
    lemma_toggle_id_at(next, TOGGLE_COUNT as int, k);
    lemma_count_visible_grows(j, k);
    lemma_count_visible(j);
    lemma_count_visible(k);
    lemma_counter_after_wrap(next, count_visible(j));
    lemma_counter_after_wrap(next, count_visible(k));
}

/// Allocates the knob rows' message ids.
pub fn alloc_toggle_ids(alloc: &mut MessageIdAllocator) -> (r: Vec<i32>)
    ensures
        r@.map_values(|v: i32| v as int) == toggle_ids_from(old(alloc).next, TOGGLE_COUNT as int),
        final(alloc).next == counter_after(old(alloc).next, count_visible(TOGGLE_COUNT as int)),
        old(alloc).next - count_visible(TOGGLE_COUNT as int) >= i32::MIN ==> final(alloc).next == old(alloc).next
            - count_visible(TOGGLE_COUNT as int),
{
    let mut out: Vec<i32> = Vec::new();
    let ghost start = alloc.next;
    for i in 0..TOGGLE_COUNT
        invariant
            out@.len() == i,
            out@.map_values(|v: i32| v as int) == toggle_ids_from(start, i as int),
            alloc.next == counter_after(start, count_visible(i as int)),
            0 <= count_visible(i as int) <= i,
    {
        proof {
            lemma_count_visible(i as int);
        }
        let f = flag_at(i);
        let ghost before = out@;
        if flag_category(f).is_some() {
            let id = alloc.alloc_message_id();
            out.push(id);
        } else {
            out.push(-1);
        }
        assert(out@.map_values(|v: i32| v as int) =~= toggle_ids_from(start, i + 1)) by {
            assert(before.map_values(|v: i32| v as int) == toggle_ids_from(start, i as int));
            assert(out@.map_values(|v: i32| v as int) =~= before.map_values(|v: i32| v as int).push(out@[i as int] as int));
        }
    }
    proof {
        lemma_count_visible(TOGGLE_COUNT as int);
        if start - count_visible(TOGGLE_COUNT as int) >= i32::MIN {
            lemma_counter_after(start, count_visible(TOGGLE_COUNT as int));
        }
    }
    out
}

/// The knobs of `cat` among the first `k` registry entries, in order.
pub open spec fn category_flags(cat: Category, k: int) -> Seq<Flag>
    decreases k,
{
    if k <= 0 {
        Seq::empty()
    } else if spec_flag_category(spec_flag_at(k - 1)) == Some(cat) {
        category_flags(cat, k - 1).push(spec_flag_at(k - 1))
    } else {
        category_flags(cat, k - 1)
    }
}

pub open spec fn cancel_row() -> MenuRow {
    MenuRow { index: 99, message_id: MSG_CANCEL, is_default: true, action: None }
}

/// The rows of a category submenu: one per knob of the category (1-based
/// indexes, the knob's message, its toggle action), the readout cycle row in
/// the QoL list, then Cancel.
pub open spec fn category_rows(cat: Category, ids: Seq<int>, hp_msg: i32) -> Seq<MenuRow> {
    let fs = category_flags(cat, TOGGLE_COUNT as int);
    let knob_rows = Seq::new(
        fs.len(),
        |k: int| MenuRow {
            index: (k + 1) as i32,
            message_id: ids[spec_flag_index(fs[k])] as i32,
            is_default: false,
            action: Some((TOGGLE_ACTION_BASE + spec_flag_index(fs[k])) as u64),
        },
    );
    let hp_rows = if cat == Category::Qol {
        seq![MenuRow { index: (fs.len() + 1) as i32, message_id: hp_msg, is_default: false, action: Some(HP_CYCLE_ACTION) }]
    } else {
        Seq::empty()
    };
    knob_rows + hp_rows + seq![cancel_row()]
}

/// Builds the rows of a category submenu.
pub fn rows_for_category(cat: Category, ids: &Vec<i32>, hp_msg: i32) -> (r: Vec<MenuRow>)
    requires
        ids@.len() == TOGGLE_COUNT,
    ensures
        r@ == category_rows(cat, ids@.map_values(|v: i32| v as int), hp_msg),
{
    let ghost idv = ids@.map_values(|v: i32| v as int);
    let mut rows: Vec<MenuRow> = Vec::new();
    for i in 0..TOGGLE_COUNT
        invariant
            ids@.len() == TOGGLE_COUNT,
            idv == ids@.map_values(|v: i32| v as int),
            rows@.len() == category_flags(cat, i as int).len(),
            rows@.len() <= i,
            rows@ == Seq::new(
                category_flags(cat, i as int).len(),
                |k: int| MenuRow {
                    index: (k + 1) as i32,
                    message_id: idv[spec_flag_index(category_flags(cat, i as int)[k])] as i32,
                    is_default: false,
                    action: Some((TOGGLE_ACTION_BASE + spec_flag_index(category_flags(cat, i as int)[k])) as u64),
                },
            ),
    {
        let f = flag_at(i);
        proof {
            lemma_flag_at(i as int);
        }
        let ghost prev = category_flags(cat, i as int);
        if flag_category(f) == Some(cat) {
            let idx = flag_index(f);
            let n = rows.len();
            rows.push(MenuRow { index: (n + 1) as i32, message_id: ids[idx], is_default: false, action: Some(TOGGLE_ACTION_BASE + idx as u64) });
            assert(category_flags(cat, i + 1) == prev.push(f));
        } else {
            assert(category_flags(cat, i + 1) == prev);
        }
        assert(rows@ =~= Seq::new(
            category_flags(cat, i + 1).len(),
            |k: int| MenuRow {
                index: (k + 1) as i32,
                message_id: idv[spec_flag_index(category_flags(cat, i + 1)[k])] as i32,
                is_default: false,
                action: Some((TOGGLE_ACTION_BASE + spec_flag_index(category_flags(cat, i + 1)[k])) as u64),
            },
        ));
    }
    let ghost knobs = rows@;
    if cat == Category::Qol {
        let n = rows.len();
        rows.push(MenuRow { index: (n + 1) as i32, message_id: hp_msg, is_default: false, action: Some(HP_CYCLE_ACTION) });
    }
    rows.push(MenuRow { index: 99, message_id: MSG_CANCEL, is_default: true, action: None });
    assert(rows@ =~= category_rows(cat, idv, hp_msg));
    rows
}

/// The message ids of the settings entry, its category rows and the readout
/// row.
#[derive(Clone, Copy, Debug)]
pub struct SettingsMessages {
    pub settings: i32,
    pub cat_qol: i32,
    pub cat_tweaks: i32,
    pub cat_silly: i32,
    pub hp_bar_tracks: i32,
}

/// The category list: QoL, Tweaks, Silly, Cancel.
pub open spec fn settings_rows(m: SettingsMessages) -> Seq<MenuRow> {
    seq![
        MenuRow { index: 1, message_id: m.cat_qol, is_default: false, action: None },
        MenuRow { index: 2, message_id: m.cat_tweaks, is_default: false, action: None },
        MenuRow { index: 3, message_id: m.cat_silly, is_default: false, action: None },
        cancel_row(),
    ]
}

/// Where the settings menus live.
pub struct SettingsAddrs {
    pub settings: MenuAddrs,
    pub qol: MenuAddrs,
    pub tweaks: MenuAddrs,
    pub silly: MenuAddrs,
}

pub struct SettingsMenus {
    pub settings: LinkedSubMenu,
    pub qol: LinkedSubMenu,
    pub tweaks: LinkedSubMenu,
    pub silly: LinkedSubMenu,
}

/// The settings menus as built for a grace menu whose initial state is
/// `initial`: the category list (Cancel back to the grace menu) opens the
/// three category lists; those keep the player inside after a toggle and go
/// back to the category list on Cancel.
pub open spec fn settings_menus(
    r: SettingsMenus,
    m: SettingsMessages,
    ids: Seq<int>,
    a: SettingsAddrs,
    initial: u64,
) -> bool {
    let rows = settings_rows(m);
    &&& is_linked(r.qol, category_rows(Category::Qol, ids, m.hp_bar_tracks), a.qol.menu, a.qol.branch, a.qol.actions@, a.settings.menu, a.qol.menu)
    &&& is_linked(r.tweaks, category_rows(Category::Tweaks, ids, m.hp_bar_tracks), a.tweaks.menu, a.tweaks.branch, a.tweaks.actions@, a.settings.menu, a.tweaks.menu)
    &&& is_linked(r.silly, category_rows(Category::Silly, ids, m.hp_bar_tracks), a.silly.menu, a.silly.branch, a.silly.actions@, a.settings.menu, a.silly.menu)
    &&& is_menu_state(r.settings.state, rows, a.settings.menu, a.settings.branch)
    &&& r.settings.branch_state.addr == a.settings.branch
    &&& r.settings.branch_state.transitions@.len() == 4
    &&& forall|k: int| 0 <= k < 4 ==> is_plain_transition(
        #[trigger] r.settings.branch_state.transitions@[k],
        seq![a.qol.menu, a.tweaks.menu, a.silly.menu, initial][k],
        row_evaluator(rows[k]),
    )
    &&& r.settings.branch_state.entry_events@.len() == 0
    &&& r.settings.action_states@.len() == 0
}

/// The addresses fit the rows.
pub open spec fn settings_addrs_fit(a: SettingsAddrs, ids: Seq<int>, hp: i32) -> bool {
    &&& a.settings.actions@.len() == 4
    &&& a.qol.actions@.len() == category_rows(Category::Qol, ids, hp).len()
    &&& a.tweaks.actions@.len() == category_rows(Category::Tweaks, ids, hp).len()
    &&& a.silly.actions@.len() == category_rows(Category::Silly, ids, hp).len()
}

proof fn lemma_no_actions(rows: Seq<MenuRow>, addrs: Seq<u64>, ret: u64, aret: u64, n: int)
    requires
        0 <= n <= rows.len(),
        forall|k: int| 0 <= k < rows.len() ==> (#[trigger] rows[k]).action is None,
    ensures
        action_entries(rows, addrs, ret, aret, n).len() == 0,
    decreases n,
{
    if n > 0 {
        lemma_no_actions(rows, addrs, ret, aret, n - 1);
        assert(rows[n - 1].action is None);
    }
}

proof fn lemma_category_flags_len(cat: Category, k: int)
    requires
        0 <= k,
    ensures
        category_flags(cat, k).len() <= k,
    decreases k,
{
    if k > 0 {
        lemma_category_flags_len(cat, k - 1);
    }
}

/// The actions the settings menu registers: those of the QoL, Tweaks and
/// Silly lists, in that order, each returning to its own list.
pub open spec fn settings_registrations(a: SettingsAddrs, ids: Seq<int>, hp: i32) -> Seq<(u64, u64)> {
    let q = category_rows(Category::Qol, ids, hp);
    let t = category_rows(Category::Tweaks, ids, hp);
    let s = category_rows(Category::Silly, ids, hp);
    registrations(action_entries(q, a.qol.actions@, a.settings.menu, a.qol.menu, q.len() as int))
        + registrations(action_entries(t, a.tweaks.actions@, a.settings.menu, a.tweaks.menu, t.len() as int))
        + registrations(action_entries(s, a.silly.actions@, a.settings.menu, a.silly.menu, s.len() as int))
}

/// Adds the "ERQoL Settings" entry (row 72, next to the Sort Chest row) to a
/// grace menu with an initial state, with its category lists. Returns the
/// menus when the entry was added; otherwise the group is unchanged.
pub fn patch_settings(
    group: &mut StateGroup,
    m: &SettingsMessages,
    ids: &Vec<i32>,
    a: &SettingsAddrs,
    registry: &mut ActionRegistry,
) -> (r: Option<SettingsMenus>)
    requires
        ids@.len() == TOGGLE_COUNT,
        settings_addrs_fit(*a, ids@.map_values(|v: i32| v as int), m.hp_bar_tracks),
    ensures
        r is None ==> *final(group) == *old(group),
        old(group).initial_state == 0 ==> r is None && final(registry).entries@ == old(registry).entries@,
        old(group).initial_state != 0 ==> final(registry).entries@ == old(registry).entries@
            + settings_registrations(*a, ids@.map_values(|v: i32| v as int), m.hp_bar_tracks),
        r is None && old(group).initial_state != 0 ==> {
            ||| row_present(*old(group), m.settings)
            ||| forall|i: int|
                0 <= i < old(group).states@.len() ==> !#[trigger] state_has_anchor(
                    old(group).states@[i],
                    SpliceAnchor::SortChestRow,
                )
            ||| forall|i: int| 0 <= i < old(group).states@.len() ==> !#[trigger] state_has_dispatch(old(group).states@[i])
        },
        r matches Some(menus) ==> {
            &&& old(group).initial_state != 0
            &&& !row_present(*old(group), m.settings)
            &&& settings_menus(menus, *m, ids@.map_values(|v: i32| v as int), *a, old(group).initial_state)
            &&& exists|p: SplicePlan|
                valid_plan(*old(group), SpliceAnchor::SortChestRow, p) && spliced(
                    *final(group),
                    *old(group),
                    p,
                    OPTION_INDEX,
                    m.settings,
                    a.settings.menu,
                )
        },
{
    let initial = group.initial_state;
    if initial == 0 {
        return None;
    }
    let mut rows: Vec<MenuRow> = Vec::new();
    rows.push(MenuRow { index: 1, message_id: m.cat_qol, is_default: false, action: None });
    rows.push(MenuRow { index: 2, message_id: m.cat_tweaks, is_default: false, action: None });
    rows.push(MenuRow { index: 3, message_id: m.cat_silly, is_default: false, action: None });
    rows.push(MenuRow { index: 99, message_id: MSG_CANCEL, is_default: true, action: None });
    assert(rows@ =~= settings_rows(*m));
    let mut settings = link(&rows, a.settings.menu, a.settings.branch, &a.settings.actions, initial, a.settings.menu, registry);
    proof {
        lemma_no_actions(rows@, a.settings.actions@, initial, a.settings.menu, 4);
    }
    let qol_rows = rows_for_category(Category::Qol, ids, m.hp_bar_tracks);
    let tweaks_rows = rows_for_category(Category::Tweaks, ids, m.hp_bar_tracks);
    let silly_rows = rows_for_category(Category::Silly, ids, m.hp_bar_tracks);
    proof {
        lemma_category_flags_len(Category::Qol, TOGGLE_COUNT as int);
        lemma_category_flags_len(Category::Tweaks, TOGGLE_COUNT as int);
        lemma_category_flags_len(Category::Silly, TOGGLE_COUNT as int);
    }
    let qol = link(&qol_rows, a.qol.menu, a.qol.branch, &a.qol.actions, a.settings.menu, a.qol.menu, registry);
    let tweaks = link(&tweaks_rows, a.tweaks.menu, a.tweaks.branch, &a.tweaks.actions, a.settings.menu, a.tweaks.menu, registry);
    let silly = link(&silly_rows, a.silly.menu, a.silly.branch, &a.silly.actions, a.settings.menu, a.silly.menu, registry);
    let ghost t0 = settings.branch_state.transitions@;
    set_option_target(&mut settings, 0, a.qol.menu);
    set_option_target(&mut settings, 1, a.tweaks.menu);
    set_option_target(&mut settings, 2, a.silly.menu);
    proof {
        let targets = seq![a.qol.menu, a.tweaks.menu, a.silly.menu, initial];
        assert forall|k: int| 0 <= k < 4 implies is_plain_transition(
            #[trigger] settings.branch_state.transitions@[k],
            targets[k],
            row_evaluator(settings_rows(*m)[k]),
        ) by {
            assert(is_plain_transition(t0[k], crate::menu::row_target(settings_rows(*m), k, a.settings.actions@, initial, a.settings.menu), row_evaluator(settings_rows(*m)[k])));
        }
    }
    let menus = SettingsMenus { settings, qol, tweaks, silly };
    if splice_option_anchored(group, SpliceAnchor::SortChestRow, OPTION_INDEX, m.settings, a.settings.menu) {
        Some(menus)
    } else {
        None
    }
}

/// What a settings row does.
#[derive(Clone, Copy, Debug, PartialEq, Eq, Structural)]
pub enum SettingsAction {
    Toggle(Flag),
    CycleHpBar,
}

pub open spec fn spec_settings_action_id(a: SettingsAction) -> int {
    match a {
        SettingsAction::Toggle(f) => TOGGLE_ACTION_BASE + spec_flag_index(f),
        SettingsAction::CycleHpBar => HP_CYCLE_ACTION as int,
    }
}

/// The settings action registered under `id`, if any.
pub fn settings_action_of_id(id: u64) -> (r: Option<SettingsAction>)
    ensures
        match r {
            Some(a) => spec_settings_action_id(a) == id,
            None => forall|a: SettingsAction| spec_settings_action_id(a) != id,
        },
{
    if id == HP_CYCLE_ACTION {
        return Some(SettingsAction::CycleHpBar);
    }
    if TOGGLE_ACTION_BASE <= id && id < TOGGLE_ACTION_BASE + TOGGLE_COUNT as u64 {
        let i = (id - TOGGLE_ACTION_BASE) as usize;
        let f = flag_at(i);
        proof {
            lemma_flag_at(i as int);
        }
        return Some(SettingsAction::Toggle(f));
    }
    proof {
        assert forall|a: SettingsAction| spec_settings_action_id(a) != id by {
            match a {
                SettingsAction::Toggle(f) => {
                    lemma_flag_index(f);
                },
                _ => {},
            }
        }
    }
    None
}

/// Runs a settings row's action: a knob row flips its knob (and the
/// dungeon-warp runtime mirror), the readout row cycles the readout mode.
pub fn apply_settings_action(cfg: &mut Config, runtime: &mut RuntimeToggles, a: SettingsAction)
    ensures
        match a {
            SettingsAction::Toggle(f) => {
                &&& forall|g: Flag| #[trigger]
                    final(cfg).flags.spec_get(g) == if g == f {
                        !old(cfg).flags.spec_get(g)
                    } else {
                        old(cfg).flags.spec_get(g)
                    }
                &&& final(runtime).dungeon_warp_enabled == if f == Flag::DungeonWarp {
                    final(cfg).flags.spec_get(Flag::DungeonWarp)
                } else {
                    old(runtime).dungeon_warp_enabled
                }
                &&& final(cfg).hp_bar_tracks == old(cfg).hp_bar_tracks
            },
            SettingsAction::CycleHpBar => {
                &&& final(cfg).flags == old(cfg).flags
                &&& final(cfg).hp_bar_tracks != old(cfg).hp_bar_tracks
                &&& *final(runtime) == *old(runtime)
            },
        },
        final(cfg).posture_body == old(cfg).posture_body,
        final(cfg).posture_right_arm == old(cfg).posture_right_arm,
        final(cfg).posture_left_arm == old(cfg).posture_left_arm,
        final(cfg).posture_movement == old(cfg).posture_movement,
        final(cfg).map_icon_point_label == old(cfg).map_icon_point_label,
{
    match a {
        SettingsAction::Toggle(f) => {
            proof {
                crate::settings::lemma_find_toggle_key(f);
            }
            let _ = apply_toggle(cfg, runtime, flag_key(f));
        },
        SettingsAction::CycleHpBar => {
            cfg.hp_bar_tracks = cfg.hp_bar_tracks.cycled();
        },
    }
}

} // verus!

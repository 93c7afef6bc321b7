//! The Roundtable Hold mirror's "Alter Posture" menu: a third row spliced
//! into the mirror's talk list, opening category rows, checkbox pickers (one
//! row per posture, `[X]` on the current one), the alternative-landing toggle
//! and a clear-all action.

use vstd::prelude::*;
use crate::config::{Config, Flag};
use crate::esd::StateGroup;
use crate::menu::{
    MenuAddrs,
    is_event, is_linked, is_menu_state, is_plain_transition, link, row_evaluator, set_option_target, ActionRegistry,
    action_entries, registrations, LinkedSubMenu, MenuRow,
};
use crate::messages::MessageIdAllocator;
use crate::postures::{
    arm_labels, body_labels, landing_label, marker_label, named_label, spec_action_id, spec_landing_label,
    spec_marker_label, spec_named_label, table_label, action_id, LabelTable, PostureAction, rem_euclid,
    movement_labels,
};
use crate::splice::{law_splice_idempotent, row_present, spliced, splice_option_anchored, state_has_anchor, state_has_dispatch, valid_plan, SpliceAnchor, SplicePlan, has_row_message};

verus! {

broadcast use vstd::string::group_string_axioms;

/// The mirror's talk state group id.
pub const MIRROR_GROUP: i32 = 2147483613;
/// Row index of "Alter Posture" in the mirror list.
pub const OPTION_INDEX: i32 = 2;
/// Message of every Cancel/Back row.
pub const MSG_CANCEL: i32 = 69_990_003;

/// The message ids of the posture menus.
#[derive(Clone, Copy, Debug)]
pub struct MirrorMessages {
    pub alter: i32,
    pub body: i32,
    pub right_arm: i32,
    pub left_arm: i32,
    pub movement: i32,
    pub landing: i32,
    pub clear_all: i32,
    pub body_base: i32,
    pub right_base: i32,
    pub left_base: i32,
    pub move_default: i32,
    pub move_heavy: i32,
}

/// Allocates the menu's message ids in registration order: the seven single
/// rows, the body picker block (13), the two arm picker blocks (12 each), and
/// the two movement rows.
pub fn alloc_mirror_messages(alloc: &mut MessageIdAllocator) -> (m: MirrorMessages)
    requires
        old(alloc).next - 46 >= i32::MIN,
    ensures
        m.alter == old(alloc).next,
        m.body == old(alloc).next - 1,
        m.right_arm == old(alloc).next - 2,
        m.left_arm == old(alloc).next - 3,
        m.movement == old(alloc).next - 4,
        m.landing == old(alloc).next - 5,
        m.clear_all == old(alloc).next - 6,
        m.body_base == old(alloc).next - 19,
        m.right_base == old(alloc).next - 31,
        m.left_base == old(alloc).next - 43,
        m.move_default == old(alloc).next - 44,
        m.move_heavy == old(alloc).next - 45,
        final(alloc).next == old(alloc).next - 46,
{
    let alter = alloc.alloc_message_id();
    let body = alloc.alloc_message_id();
    let right_arm = alloc.alloc_message_id();
    let left_arm = alloc.alloc_message_id();
    let movement = alloc.alloc_message_id();
    let landing = alloc.alloc_message_id();
    let clear_all = alloc.alloc_message_id();
    let body_base = alloc.alloc_message_block(13);
    let right_base = alloc.alloc_message_block(12);
    let left_base = alloc.alloc_message_block(12);
    let move_default = alloc.alloc_message_id();
    let move_heavy = alloc.alloc_message_id();
    MirrorMessages {
        alter,
        body,
        right_arm,
        left_arm,
        movement,
        landing,
        clear_all,
        body_base,
        right_base,
        left_base,
        move_default,
        move_heavy,
    }
}

/// The picker block starts leave room for their rows.
pub open spec fn messages_fit(m: MirrorMessages) -> bool {
    m.body_base + 13 <= i32::MAX && m.right_base + 12 <= i32::MAX && m.left_base + 12 <= i32::MAX
}

/// The marker rows of one picker block: row `i` is `[X] label` when `i` is
/// the current option.
pub open spec fn marker_texts(base: i32, labels: Seq<Seq<char>>, current: int) -> Seq<(int, Seq<char>)> {
    Seq::new(labels.len(), |i: int| (base + i, spec_marker_label(i == current, labels[i])))
}

/// Every menu text as the configuration shows it: the category rows with
/// their current option, the landing toggle, and the picker markers.
pub open spec fn refresh_texts(m: MirrorMessages, cfg: Config) -> Seq<(int, Seq<char>)> {
    let heavy = cfg.posture_movement != 0;
    seq![
        (m.body as int, spec_named_label("Body Posture"@, LabelTable::Body, cfg.posture_body)),
        (m.right_arm as int, spec_named_label("Right Arm Posture"@, LabelTable::Arm, cfg.posture_right_arm)),
        (m.left_arm as int, spec_named_label("Left Arm Posture"@, LabelTable::Arm, cfg.posture_left_arm)),
        (m.movement as int, spec_named_label("Movement Style"@, LabelTable::Movement, cfg.posture_movement)),
        (m.landing as int, spec_landing_label(cfg.flags.spec_get(Flag::PostureAlternativeLanding))),
    ] + marker_texts(m.body_base, body_labels(), (cfg.posture_body as int) % 13) + marker_texts(
        m.right_base,
        arm_labels(),
        (cfg.posture_right_arm as int) % 12,
    ) + marker_texts(m.left_base, arm_labels(), (cfg.posture_left_arm as int) % 12) + seq![
        (m.move_default as int, spec_marker_label(!heavy, "Default"@)),
        (m.move_heavy as int, spec_marker_label(heavy, "Heavy"@)),
    ]
}

/// The texts as pairs of message id and text.
pub open spec fn text_views(v: Seq<(i32, String)>) -> Seq<(int, Seq<char>)> {
    v.map_values(|p: (i32, String)| (p.0 as int, p.1@))
}

fn push_text(out: &mut Vec<(i32, String)>, id: i32, text: String)
    ensures
        text_views(final(out)@) == text_views(old(out)@).push((id as int, text@)),
{
    let ghost before = out@;
    out.push((id, text));
    assert(text_views(out@) =~= text_views(before).push((id as int, text@)));
}

fn push_markers(out: &mut Vec<(i32, String)>, base: i32, t: LabelTable, current: usize)
    requires
        base + crate::postures::table_labels(t).len() <= i32::MAX,
    ensures
        text_views(final(out)@) == text_views(old(out)@) + marker_texts(
            base,
            crate::postures::table_labels(t),
            current as int,
        ),
{
    let ghost start = text_views(out@);
    let n = crate::postures::table_len(t);
    let mut i: i32 = 0;
    while i < n
        invariant
            0 <= i <= n,
            n == crate::postures::table_labels(t).len(),
            base + n <= i32::MAX,
            text_views(out@) == start + marker_texts(base, crate::postures::table_labels(t), current as int).take(i as int),
        decreases n - i,
    {
        let text = marker_label(i as usize == current, table_label(t, i as usize));
        push_text(out, base + i, text);
        i = i + 1;
        assert(text_views(out@) =~= start + marker_texts(base, crate::postures::table_labels(t), current as int).take(i as int));
    }
    assert(marker_texts(base, crate::postures::table_labels(t), current as int).take(n as int) =~= marker_texts(
        base,
        crate::postures::table_labels(t),
        current as int,
    ));
}

/// The texts to write after any change to the posture settings.
pub fn mirror_texts(m: &MirrorMessages, cfg: &Config) -> (r: Vec<(i32, String)>)
    requires
        messages_fit(*m),
    ensures
        text_views(r@) == refresh_texts(*m, *cfg),
{
    let mut out: Vec<(i32, String)> = Vec::new();
    push_text(&mut out, m.body, named_label("Body Posture", LabelTable::Body, cfg.posture_body));
    push_text(&mut out, m.right_arm, named_label("Right Arm Posture", LabelTable::Arm, cfg.posture_right_arm));
    push_text(&mut out, m.left_arm, named_label("Left Arm Posture", LabelTable::Arm, cfg.posture_left_arm));
    push_text(&mut out, m.movement, named_label("Movement Style", LabelTable::Movement, cfg.posture_movement));
    push_text(&mut out, m.landing, landing_label(cfg.flags.get(Flag::PostureAlternativeLanding)));
    push_markers(&mut out, m.body_base, LabelTable::Body, rem_euclid(cfg.posture_body, 13));
    push_markers(&mut out, m.right_base, LabelTable::Arm, rem_euclid(cfg.posture_right_arm, 12));
    push_markers(&mut out, m.left_base, LabelTable::Arm, rem_euclid(cfg.posture_left_arm, 12));
    let heavy = cfg.posture_movement != 0;
    push_text(&mut out, m.move_default, marker_label(!heavy, "Default"));
    push_text(&mut out, m.move_heavy, marker_label(heavy, "Heavy"));
    assert(text_views(out@) =~= refresh_texts(*m, *cfg));
    out
}

/// The texts registered first, in registration order: the row titles, the
/// landing toggle off, Cancel, every picker row unmarked (the two arm blocks
/// interleaved row by row) and the movement rows with Default marked.
pub open spec fn initial_texts(m: MirrorMessages) -> Seq<(int, Seq<char>)> {
    seq![
        (m.alter as int, "Alter Posture"@),
        (m.body as int, "Body Posture"@),
        (m.right_arm as int, "Right Arm Posture"@),
        (m.left_arm as int, "Left Arm Posture"@),
        (m.movement as int, "Movement Style"@),
        (m.landing as int, "[OFF] Alternative Landing"@),
        (m.clear_all as int, "Clear All Postures"@),
        (MSG_CANCEL as int, "Cancel"@),
    ] + marker_texts(m.body_base, body_labels(), -1) + Seq::new(
        24,
        |k: int|
            if k % 2 == 0 {
                (m.right_base + k / 2, spec_marker_label(false, arm_labels()[k / 2]))
            } else {
                (m.left_base + k / 2, spec_marker_label(false, arm_labels()[k / 2]))
            },
    ) + seq![
        (m.move_default as int, spec_marker_label(true, "Default"@)),
        (m.move_heavy as int, spec_marker_label(false, "Heavy"@)),
    ]
}

fn plain_text(s: &str) -> (r: String)
    ensures
        r@ == s@,
{
    crate::text::string_from_chars(crate::text::str_chars(s).as_slice())
}

/// The texts to register before the first refresh.
pub fn mirror_initial_texts(m: &MirrorMessages) -> (r: Vec<(i32, String)>)
    requires
        messages_fit(*m),
    ensures
        text_views(r@) == initial_texts(*m),
{
    let mut out: Vec<(i32, String)> = Vec::new();
    push_text(&mut out, m.alter, plain_text("Alter Posture"));
    push_text(&mut out, m.body, plain_text("Body Posture"));
    push_text(&mut out, m.right_arm, plain_text("Right Arm Posture"));
    push_text(&mut out, m.left_arm, plain_text("Left Arm Posture"));
    push_text(&mut out, m.movement, plain_text("Movement Style"));
    push_text(&mut out, m.landing, plain_text("[OFF] Alternative Landing"));
    push_text(&mut out, m.clear_all, plain_text("Clear All Postures"));
    push_text(&mut out, MSG_CANCEL, plain_text("Cancel"));
    let ghost head = text_views(out@);
    push_markers(&mut out, m.body_base, LabelTable::Body, 13);
    proof {
        assert(marker_texts(m.body_base, body_labels(), 13) =~= marker_texts(m.body_base, body_labels(), -1));
    }
    let ghost head2 = text_views(out@);
    let ghost arms = Seq::new(
        24,
        |k: int|
            if k % 2 == 0 {
                (m.right_base + k / 2, spec_marker_label(false, arm_labels()[k / 2]))
            } else {
                (m.left_base + k / 2, spec_marker_label(false, arm_labels()[k / 2]))
            },
    );
    let mut i: i32 = 0;
    while i < 12
        invariant
            0 <= i <= 12,
            messages_fit(*m),
            text_views(out@) == head2 + arms.take(2 * i),
            arms == Seq::new(
                24,
                |k: int|
                    if k % 2 == 0 {
                        (m.right_base + k / 2, spec_marker_label(false, arm_labels()[k / 2]))
                    } else {
                        (m.left_base + k / 2, spec_marker_label(false, arm_labels()[k / 2]))
                    },
            ),
        decreases 12 - i,
    {
        let label = table_label(LabelTable::Arm, i as usize);
        push_text(&mut out, m.right_base + i, marker_label(false, label));
        push_text(&mut out, m.left_base + i, marker_label(false, label));
        assert(arms[2 * i] == (m.right_base + i, spec_marker_label(false, arm_labels()[i as int])));
        assert(arms[2 * i + 1] == (m.left_base + i, spec_marker_label(false, arm_labels()[i as int])));
        i = i + 1;
        assert(text_views(out@) =~= head2 + arms.take(2 * i));
    }
    assert(arms.take(24) =~= arms);
    push_text(&mut out, m.move_default, marker_label(true, "Default"));
    push_text(&mut out, m.move_heavy, marker_label(false, "Heavy"));
    assert(text_views(out@) =~= initial_texts(*m));
    out
}

/// Where the posture menus live.
pub struct MirrorAddrs {
    pub main: MenuAddrs,
    pub body: MenuAddrs,
    pub right_arm: MenuAddrs,
    pub left_arm: MenuAddrs,
    pub movement: MenuAddrs,
}

/// The built posture menus.
pub struct MirrorMenus {
    pub main: LinkedSubMenu,
    pub body: LinkedSubMenu,
    pub right_arm: LinkedSubMenu,
    pub left_arm: LinkedSubMenu,
    pub movement: LinkedSubMenu,
}

pub open spec fn back_row() -> MenuRow {
    MenuRow { index: 99, message_id: MSG_CANCEL, is_default: true, action: None }
}

/// A picker: one row per option `i` (index `i + 1`, so that backing out,
/// which reports 0, falls to Back), running `action(i)`, then Back.
pub open spec fn picker_rows(base: i32, n: int, action: spec_fn(int) -> PostureAction) -> Seq<MenuRow> {
    Seq::new(
        n as nat,
        |i: int| MenuRow { index: (i + 1) as i32, message_id: (base + i) as i32, is_default: false, action: Some(spec_action_id(action(i)) as u64) },
    ).push(back_row())
}

pub open spec fn body_picker(m: MirrorMessages) -> Seq<MenuRow> {
    picker_rows(m.body_base, 13, kind_action(PickerKind::Body))
}

pub open spec fn right_picker(m: MirrorMessages) -> Seq<MenuRow> {
    picker_rows(m.right_base, 12, kind_action(PickerKind::RightArm))
}

pub open spec fn left_picker(m: MirrorMessages) -> Seq<MenuRow> {
    picker_rows(m.left_base, 12, kind_action(PickerKind::LeftArm))
}

pub open spec fn movement_picker(m: MirrorMessages) -> Seq<MenuRow> {
    seq![
        MenuRow { index: 1, message_id: m.move_default, is_default: false, action: Some(spec_action_id(PostureAction::SetMovement(0)) as u64) },
        MenuRow { index: 2, message_id: m.move_heavy, is_default: false, action: Some(spec_action_id(PostureAction::SetMovement(1)) as u64) },
        back_row(),
    ]
}

/// The main Alter Posture page: the four category rows, the landing toggle,
/// clear-all, and Cancel.
pub open spec fn main_rows(m: MirrorMessages) -> Seq<MenuRow> {
    seq![
        MenuRow { index: 1, message_id: m.body, is_default: false, action: None },
        MenuRow { index: 2, message_id: m.right_arm, is_default: false, action: None },
        MenuRow { index: 3, message_id: m.left_arm, is_default: false, action: None },
        MenuRow { index: 4, message_id: m.movement, is_default: false, action: None },
        MenuRow { index: 5, message_id: m.landing, is_default: false, action: Some(spec_action_id(PostureAction::ToggleLanding) as u64) },
        MenuRow { index: 6, message_id: m.clear_all, is_default: false, action: Some(spec_action_id(PostureAction::ClearAll) as u64) },
        back_row(),
    ]
}

/// The menus as built for a mirror whose initial state is `initial`: each
/// picker keeps the player inside it after a pick and returns to the main
/// page on Back; the main page's category rows open the pickers, its
/// toggle rows return to the main page, and Cancel goes back to the mirror.
pub open spec fn mirror_menus(r: MirrorMenus, m: MirrorMessages, a: MirrorAddrs, initial: u64) -> bool {
    let main_entries = action_entries(main_rows(m), a.main.actions@, initial, a.main.menu, 7);
    &&& is_linked(r.body, body_picker(m), a.body.menu, a.body.branch, a.body.actions@, a.main.menu, a.body.menu)
    &&& is_linked(r.right_arm, right_picker(m), a.right_arm.menu, a.right_arm.branch, a.right_arm.actions@, a.main.menu, a.right_arm.menu)
    &&& is_linked(r.left_arm, left_picker(m), a.left_arm.menu, a.left_arm.branch, a.left_arm.actions@, a.main.menu, a.left_arm.menu)
    &&& is_linked(r.movement, movement_picker(m), a.movement.menu, a.movement.branch, a.movement.actions@, a.main.menu, a.movement.menu)
    &&& is_menu_state(r.main.state, main_rows(m), a.main.menu, a.main.branch)
    &&& r.main.branch_state.addr == a.main.branch
    &&& r.main.branch_state.transitions@.len() == 7
    &&& forall|k: int| 0 <= k < 7 ==> is_plain_transition(
        #[trigger] r.main.branch_state.transitions@[k],
        seq![a.body.menu, a.right_arm.menu, a.left_arm.menu, a.movement.menu, a.main.actions@[4], a.main.actions@[5], initial][k],
        row_evaluator(main_rows(m)[k]),
    )
    &&& r.main.branch_state.entry_events@.len() == 0
    &&& r.main.action_states@.len() == main_entries.len()
    &&& forall|k: int| 0 <= k < r.main.action_states@.len() ==> crate::menu::is_action_state(#[trigger] r.main.action_states@[k], main_entries[k].0, main_entries[k].2)
}

/// Which selection a picker sets.
#[derive(Clone, Copy, Debug, PartialEq, Eq, Structural)]
pub enum PickerKind {
    Body,
    RightArm,
    LeftArm,
}

pub open spec fn kind_action(k: PickerKind) -> spec_fn(int) -> PostureAction {
    match k {
        PickerKind::Body => |i: int| PostureAction::SetBody(i as i32),
        PickerKind::RightArm => |i: int| PostureAction::SetRightArm(i as i32),
        PickerKind::LeftArm => |i: int| PostureAction::SetLeftArm(i as i32),
    }
}

pub open spec fn kind_len(k: PickerKind) -> int {
    match k {
        PickerKind::Body => 13,
        _ => 12,
    }
}

fn kind_action_exec(k: PickerKind, i: i32) -> (a: PostureAction)
    ensures
        a == kind_action(k)(i as int),
{
    match k {
        PickerKind::Body => PostureAction::SetBody(i),
        PickerKind::RightArm => PostureAction::SetRightArm(i),
        PickerKind::LeftArm => PostureAction::SetLeftArm(i),
    }
}

fn back_row_exec() -> (r: MenuRow)
    ensures
        r == back_row(),
{
    MenuRow { index: 99, message_id: MSG_CANCEL, is_default: true, action: None }
}

/// The rows of a picker whose messages start at `base`.
fn picker_vec(base: i32, k: PickerKind) -> (rows: Vec<MenuRow>)
    requires
        base + kind_len(k) <= i32::MAX,
    ensures
        rows@ == picker_rows(base, kind_len(k), kind_action(k)),
{
    let n: i32 = match k {
        PickerKind::Body => 13,
        _ => 12,
    };
    let mut rows: Vec<MenuRow> = Vec::new();
    let mut i: i32 = 0;
    while i < n
        invariant
            0 <= i <= n,
            n == kind_len(k),
            base + n <= i32::MAX,
            rows@ == Seq::new(
                i as nat,
                |j: int| MenuRow { index: (j + 1) as i32, message_id: (base + j) as i32, is_default: false, action: Some(spec_action_id(kind_action(k)(j)) as u64) },
            ),
        decreases n - i,
    {
        let act = kind_action_exec(k, i);
        let id = action_id(act);
        rows.push(MenuRow { index: i + 1, message_id: base + i, is_default: false, action: Some(id) });
        i = i + 1;
        assert(rows@ =~= Seq::new(
            i as nat,
            |j: int| MenuRow { index: (j + 1) as i32, message_id: (base + j) as i32, is_default: false, action: Some(spec_action_id(kind_action(k)(j)) as u64) },
        ));
    }
    rows.push(back_row_exec());
    rows
}

fn movement_vec(m: &MirrorMessages) -> (rows: Vec<MenuRow>)
    ensures
        rows@ == movement_picker(*m),
{
    let mut rows: Vec<MenuRow> = Vec::new();
    rows.push(MenuRow { index: 1, message_id: m.move_default, is_default: false, action: Some(action_id(PostureAction::SetMovement(0))) });
    rows.push(MenuRow { index: 2, message_id: m.move_heavy, is_default: false, action: Some(action_id(PostureAction::SetMovement(1))) });
    rows.push(back_row_exec());
    assert(rows@ =~= movement_picker(*m));
    rows
}

fn main_vec(m: &MirrorMessages) -> (rows: Vec<MenuRow>)
    ensures
        rows@ == main_rows(*m),
{
    let mut rows: Vec<MenuRow> = Vec::new();
    rows.push(MenuRow { index: 1, message_id: m.body, is_default: false, action: None });
    rows.push(MenuRow { index: 2, message_id: m.right_arm, is_default: false, action: None });
    rows.push(MenuRow { index: 3, message_id: m.left_arm, is_default: false, action: None });
    rows.push(MenuRow { index: 4, message_id: m.movement, is_default: false, action: None });
    rows.push(MenuRow { index: 5, message_id: m.landing, is_default: false, action: Some(action_id(PostureAction::ToggleLanding)) });
    rows.push(MenuRow { index: 6, message_id: m.clear_all, is_default: false, action: Some(action_id(PostureAction::ClearAll)) });
    rows.push(back_row_exec());
    assert(rows@ =~= main_rows(*m));
    rows
}

/// The menus' state addresses fit their rows.
pub open spec fn addrs_fit(a: MirrorAddrs) -> bool {
    &&& a.main.actions@.len() == 7
    &&& a.body.actions@.len() == 14
    &&& a.right_arm.actions@.len() == 13
    &&& a.left_arm.actions@.len() == 13
    &&& a.movement.actions@.len() == 3
}

/// The actions building the menus registers, in build order: the body, right
/// arm, left arm and movement pickers (each returning to itself), then the
/// main page's own rows.
pub open spec fn mirror_registrations(m: MirrorMessages, a: MirrorAddrs, initial: u64) -> Seq<(u64, u64)> {
    let b = body_picker(m);
    let ra = right_picker(m);
    let la = left_picker(m);
    let mv = movement_picker(m);
    let mn = main_rows(m);
    registrations(action_entries(b, a.body.actions@, a.main.menu, a.body.menu, b.len() as int))
        + registrations(action_entries(ra, a.right_arm.actions@, a.main.menu, a.right_arm.menu, ra.len() as int))
        + registrations(action_entries(la, a.left_arm.actions@, a.main.menu, a.left_arm.menu, la.len() as int))
        + registrations(action_entries(mv, a.movement.actions@, a.main.menu, a.movement.menu, mv.len() as int))
        + registrations(action_entries(mn, a.main.actions@, initial, a.main.menu, mn.len() as int))
}

/// Adds "Alter Posture" to the mirror menu: only the mirror's group, only
/// once (a row showing the entry's message means it is already there), only
/// with postures on and an initial state. Builds the pickers and the main
/// page and splices the row (index 2, opening the main page) after the
/// mirror's rows. Returns the menus when the row was added; otherwise the
/// group is unchanged (the action registry keeps what the build registered).
pub fn patch_mirror(
    group: &mut StateGroup,
    enabled: bool,
    m: &MirrorMessages,
    a: &MirrorAddrs,
    registry: &mut ActionRegistry,
) -> (r: Option<MirrorMenus>)
    requires
        messages_fit(*m),
        addrs_fit(*a),
    ensures
        r is None ==> *final(group) == *old(group),
        (old(group).id != MIRROR_GROUP || row_present(*old(group), m.alter) || !enabled || old(group).initial_state == 0)
            ==> r is None && final(registry).entries@ == old(registry).entries@,
        !(old(group).id != MIRROR_GROUP || row_present(*old(group), m.alter) || !enabled || old(group).initial_state == 0)
            ==> final(registry).entries@ == old(registry).entries@ + mirror_registrations(*m, *a, old(group).initial_state),
        r is None && old(group).id == MIRROR_GROUP && !row_present(*old(group), m.alter) && enabled
            && old(group).initial_state != 0 ==> {
            ||| forall|i: int|
                0 <= i < old(group).states@.len() ==> !#[trigger] state_has_anchor(
                    old(group).states@[i],
                    SpliceAnchor::TalkListRow,
                )
            ||| forall|i: int| 0 <= i < old(group).states@.len() ==> !#[trigger] state_has_dispatch(old(group).states@[i])
        },
        r matches Some(menus) ==> {
            &&& old(group).id == MIRROR_GROUP
            &&& !row_present(*old(group), m.alter)
            &&& enabled
            &&& old(group).initial_state != 0
            &&& mirror_menus(menus, *m, *a, old(group).initial_state)
            &&& exists|p: SplicePlan|
                valid_plan(*old(group), SpliceAnchor::TalkListRow, p) && spliced(
                    *final(group),
                    *old(group),
                    p,
                    OPTION_INDEX,
                    m.alter,
                    a.main.menu,
                )
        },
{
    if group.id != MIRROR_GROUP || has_row_message(group, m.alter) {
        return None;
    }
    if !enabled {
        return None;
    }
    let initial = group.initial_state;
    if initial == 0 {
        return None;
    }
    let main_rows_v = main_vec(m);
    let body_rows = picker_vec(m.body_base, PickerKind::Body);
    let right_rows = picker_vec(m.right_base, PickerKind::RightArm);
    let left_rows = picker_vec(m.left_base, PickerKind::LeftArm);
    let move_rows = movement_vec(m);
    let body = link(&body_rows, a.body.menu, a.body.branch, &a.body.actions, a.main.menu, a.body.menu, registry);
    let right_arm = link(&right_rows, a.right_arm.menu, a.right_arm.branch, &a.right_arm.actions, a.main.menu, a.right_arm.menu, registry);
    let left_arm = link(&left_rows, a.left_arm.menu, a.left_arm.branch, &a.left_arm.actions, a.main.menu, a.left_arm.menu, registry);
    let movement = link(&move_rows, a.movement.menu, a.movement.branch, &a.movement.actions, a.main.menu, a.movement.menu, registry);
    let mut main = link(&main_rows_v, a.main.menu, a.main.branch, &a.main.actions, initial, a.main.menu, registry);
    let ghost main0 = main.branch_state.transitions@;
    set_option_target(&mut main, 0, a.body.menu);
    set_option_target(&mut main, 1, a.right_arm.menu);
    set_option_target(&mut main, 2, a.left_arm.menu);
    set_option_target(&mut main, 3, a.movement.menu);
    proof {
        let targets = seq![a.body.menu, a.right_arm.menu, a.left_arm.menu, a.movement.menu, a.main.actions@[4], a.main.actions@[5], initial];
        assert forall|k: int| 0 <= k < 7 implies is_plain_transition(
            #[trigger] main.branch_state.transitions@[k],
            targets[k],
            row_evaluator(main_rows(*m)[k]),
        ) by {
            assert(is_plain_transition(main0[k], crate::menu::row_target(main_rows(*m), k, a.main.actions@, initial, a.main.menu), row_evaluator(main_rows(*m)[k])));
        }
    }
    let menus = MirrorMenus { main, body, right_arm, left_arm, movement };
    if splice_option_anchored(group, SpliceAnchor::TalkListRow, OPTION_INDEX, m.alter, a.main.menu) {
        Some(menus)
    } else {
        None
    }
}

/// A patched mirror menu is patched only once: after a call that added the
/// entry, the group shows the entry's row, so (by [`patch_mirror`]'s
/// contract) a further call returns `None` and changes nothing.
pub proof fn law_mirror_patch_once(before: StateGroup, after: StateGroup, m: MirrorMessages, a: MirrorAddrs)
    requires
        exists|p: SplicePlan|
            valid_plan(before, SpliceAnchor::TalkListRow, p) && spliced(
                after,
                before,
                p,
                OPTION_INDEX,
                m.alter,
                a.main.menu,
            ),
    ensures
        row_present(after, m.alter),
        after.id == before.id,
{
    let p = choose|p: SplicePlan|
        valid_plan(before, SpliceAnchor::TalkListRow, p) && spliced(after, before, p, OPTION_INDEX, m.alter, a.main.menu);
    law_splice_idempotent(after, before, p, OPTION_INDEX, m.alter, a.main.menu);
}

} // verus!

//! Posture selections: the option labels, the menu actions that change the
//! selection, the SpEffects a selection stands for, and the per-frame sync
//! schedule that keeps those effects applied.

use vstd::prelude::*;
use crate::config::{Config, Flag};
use crate::text::{push_all, str_chars, string_from_chars};

verus! {

broadcast use vstd::string::group_string_axioms;

/// `v` modulo `n`, always in `0..n` (`i32::rem_euclid`).
pub fn rem_euclid(v: i32, n: i32) -> (r: usize)
    requires
        n > 0,
    ensures
        r as int == (v as int) % (n as int),
        r < n,
{
    if v >= 0 {
        (v % n) as usize
    } else {
        let y: i64 = -(v as i64);
        let m: i64 = y % (n as i64);
        proof {
            let q = (y as int) / (n as int);
            vstd::arithmetic::div_mod::lemma_fundamental_div_mod(y as int, n as int);
            assert(m as int == (y as int) % (n as int));
            assert(y == n * q + m);
            assert(n * (-q) == -(n * q)) by (nonlinear_arith);
            assert(n * (-q - 1) == -(n * q) - n) by (nonlinear_arith);
            if m == 0 {
                assert(v == n * (-q));
                vstd::arithmetic::div_mod::lemma_fundamental_div_mod_converse_mod(v as int, n as int, -q, 0);
            } else {
                assert(v == n * (-q - 1) + (n - m));
                vstd::arithmetic::div_mod::lemma_fundamental_div_mod_converse_mod(v as int, n as int, -q - 1, n - m);
            }
        }
        if m == 0 {
            0
        } else {
            (n as i64 - m) as usize
        }
    }
}

/// General/body postures in menu order; index 0 ("Normal") disables.
pub open spec fn body_labels() -> Seq<Seq<char>> {
    seq![
        "Normal"@, "Type A"@, "Alternative"@, "Chivalric"@, "Regal"@, "Grave"@, "Courtly"@,
        "Formidable"@, "Severe"@, "Gentle"@, "Steadfast"@, "Scholarly"@, "Lithe"@,
    ]
}

/// Arm posture choices, shared by both arms; index 0 inherits the body
/// posture, index 1 forces vanilla arms.
pub open spec fn arm_labels() -> Seq<Seq<char>> {
    seq![
        "Inherit General"@, "Force Normal"@, "Chivalric"@, "Regal"@, "Grave"@, "Courtly"@,
        "Formidable"@, "Severe"@, "Gentle"@, "Steadfast"@, "Scholarly"@, "Lithe"@,
    ]
}

/// Movement styles.
pub open spec fn movement_labels() -> Seq<Seq<char>> {
    seq!["Default"@, "Heavy"@]
}

pub const BODY_STYLES: i32 = 13;
pub const ARM_STYLES: i32 = 12;
pub const MOVEMENT_STYLES: i32 = 2;

/// The option tables.
#[derive(Clone, Copy, Debug, PartialEq, Eq, Structural)]
pub enum LabelTable {
    Body,
    Arm,
    Movement,
}

pub open spec fn table_labels(t: LabelTable) -> Seq<Seq<char>> {
    match t {
        LabelTable::Body => body_labels(),
        LabelTable::Arm => arm_labels(),
        LabelTable::Movement => movement_labels(),
    }
}

pub fn table_len(t: LabelTable) -> (r: i32)
    ensures
        r == table_labels(t).len(),
        r > 0,
{
    match t {
        LabelTable::Body => 13,
        LabelTable::Arm => 12,
        LabelTable::Movement => 2,
    }
}

/// Label `i` of a table.
pub fn table_label(t: LabelTable, i: usize) -> (r: &'static str)
    requires
        i < table_labels(t).len(),
    ensures
        r@ == table_labels(t)[i as int],
{
    match t {
        LabelTable::Body => {
            if i == 0 { "Normal" } else if i == 1 { "Type A" } else if i == 2 { "Alternative" } else if i == 3 {
                "Chivalric"
            } else if i == 4 { "Regal" } else if i == 5 { "Grave" } else if i == 6 { "Courtly" } else if i == 7 {
                "Formidable"
            } else if i == 8 { "Severe" } else if i == 9 { "Gentle" } else if i == 10 { "Steadfast" } else if i == 11 {
                "Scholarly"
            } else { "Lithe" }
        },
        LabelTable::Arm => {
            if i == 0 { "Inherit General" } else if i == 1 { "Force Normal" } else if i == 2 { "Chivalric" } else if i == 3 {
                "Regal"
            } else if i == 4 { "Grave" } else if i == 5 { "Courtly" } else if i == 6 { "Formidable" } else if i == 7 {
                "Severe"
            } else if i == 8 { "Gentle" } else if i == 9 { "Steadfast" } else if i == 10 { "Scholarly" } else { "Lithe" }
        },
        LabelTable::Movement => {
            if i == 0 { "Default" } else { "Heavy" }
        },
    }
}

/// `name: label`, with the option picked by `value` modulo the table size.
pub open spec fn spec_named_label(name: Seq<char>, t: LabelTable, value: i32) -> Seq<char> {
    name + ": "@ + table_labels(t)[(value as int) % (table_labels(t).len() as int)]
}

/// The row text of a category, showing its current option.
pub fn named_label(name: &str, t: LabelTable, value: i32) -> (r: String)
    ensures
        r@ == spec_named_label(name@, t, value),
{
    let idx = rem_euclid(value, table_len(t));
    let mut out = str_chars(name);
    push_all(&mut out, str_chars(": ").as_slice());
    push_all(&mut out, str_chars(table_label(t, idx)).as_slice());
    string_from_chars(out.as_slice())
}

/// `[ON] Alternative Landing` or `[OFF] Alternative Landing`.
pub open spec fn spec_landing_label(enabled: bool) -> Seq<char> {
    (if enabled { "[ON]"@ } else { "[OFF]"@ }) + " Alternative Landing"@
}

pub fn landing_label(enabled: bool) -> (r: String)
    ensures
        r@ == spec_landing_label(enabled),
{
    let mut out = str_chars(if enabled { "[ON]" } else { "[OFF]" });
    push_all(&mut out, str_chars(" Alternative Landing").as_slice());
    string_from_chars(out.as_slice())
}

/// A picker row: `[X] label` for the current option, `[ ] label` otherwise.
pub open spec fn spec_marker_label(enabled: bool, label: Seq<char>) -> Seq<char> {
    (if enabled { "[X]"@ } else { "[ ]"@ }) + " "@ + label
}

pub fn marker_label(enabled: bool, label: &str) -> (r: String)
    ensures
        r@ == spec_marker_label(enabled, label@),
{
    let mut out = str_chars(if enabled { "[X]" } else { "[ ]" });
    push_all(&mut out, str_chars(" ").as_slice());
    push_all(&mut out, str_chars(label).as_slice());
    string_from_chars(out.as_slice())
}

/// What a posture-menu row does.
#[derive(Clone, Copy, Debug, PartialEq, Eq, Structural)]
pub enum PostureAction {
    SetBody(i32),
    SetRightArm(i32),
    SetLeftArm(i32),
    SetMovement(i32),
    ToggleLanding,
    ClearAll,
}

/// The action id under which a posture action is registered.
pub open spec fn spec_action_id(a: PostureAction) -> int {
    match a {
        PostureAction::SetBody(v) => 0x1000 + v,
        PostureAction::SetRightArm(v) => 0x2000 + v,
        PostureAction::SetLeftArm(v) => 0x3000 + v,
        PostureAction::SetMovement(v) => 0x4000 + v,
        PostureAction::ToggleLanding => 0x5000,
        PostureAction::ClearAll => 0x5001,
    }
}

/// The actions the menus use: picks within the tables, the movement styles,
/// and the two toggles.
pub open spec fn is_menu_action(a: PostureAction) -> bool {
    match a {
        PostureAction::SetBody(v) => 0 <= v < BODY_STYLES,
        PostureAction::SetRightArm(v) => 0 <= v < ARM_STYLES,
        PostureAction::SetLeftArm(v) => 0 <= v < ARM_STYLES,
        PostureAction::SetMovement(v) => 0 <= v < MOVEMENT_STYLES,
        _ => true,
    }
}

pub fn action_id(a: PostureAction) -> (r: u64)
    requires
        is_menu_action(a),
    ensures
        r as int == spec_action_id(a),
{
    match a {
        PostureAction::SetBody(v) => 0x1000 + v as u64,
        PostureAction::SetRightArm(v) => 0x2000 + v as u64,
        PostureAction::SetLeftArm(v) => 0x3000 + v as u64,
        PostureAction::SetMovement(v) => 0x4000 + v as u64,
        PostureAction::ToggleLanding => 0x5000,
        PostureAction::ClearAll => 0x5001,
    }
}

/// The menu action registered under `id`, if any.
pub fn action_of_id(id: u64) -> (r: Option<PostureAction>)
    ensures
        match r {
            Some(a) => is_menu_action(a) && spec_action_id(a) == id,
            None => forall|a: PostureAction| is_menu_action(a) ==> spec_action_id(a) != id,
        },
{
    if 0x1000 <= id && id < 0x1000 + 13 {
        Some(PostureAction::SetBody((id - 0x1000) as i32))
    } else if 0x2000 <= id && id < 0x2000 + 12 {
        Some(PostureAction::SetRightArm((id - 0x2000) as i32))
    } else if 0x3000 <= id && id < 0x3000 + 12 {
        Some(PostureAction::SetLeftArm((id - 0x3000) as i32))
    } else if 0x4000 <= id && id < 0x4000 + 2 {
        Some(PostureAction::SetMovement((id - 0x4000) as i32))
    } else if id == 0x5000 {
        Some(PostureAction::ToggleLanding)
    } else if id == 0x5001 {
        Some(PostureAction::ClearAll)
    } else {
        None
    }
}

/// Decoding an action id gives the action back.
pub proof fn law_action_id_roundtrip(a: PostureAction, b: PostureAction)
    requires
        is_menu_action(a),
        is_menu_action(b),
        spec_action_id(a) == spec_action_id(b),
    ensures
        a == b,
{
}

/// The effect of a posture action on the configuration: a pick sets its
/// selection, the landing toggle flips, and clearing resets every posture
/// selection and turns alternative landing off; nothing else changes.
pub fn apply_posture_action(cfg: &mut Config, a: PostureAction)
    ensures
        final(cfg).posture_body == (match a {
            PostureAction::SetBody(v) => v,
            PostureAction::ClearAll => 0,
            _ => old(cfg).posture_body,
        }),
        final(cfg).posture_right_arm == (match a {
            PostureAction::SetRightArm(v) => v,
            PostureAction::ClearAll => 0,
            _ => old(cfg).posture_right_arm,
        }),
        final(cfg).posture_left_arm == (match a {
            PostureAction::SetLeftArm(v) => v,
            PostureAction::ClearAll => 0,
            _ => old(cfg).posture_left_arm,
        }),
        final(cfg).posture_movement == (match a {
            PostureAction::SetMovement(v) => v,
            PostureAction::ClearAll => 0,
            _ => old(cfg).posture_movement,
        }),
        forall|f: Flag| #[trigger] final(cfg).flags.spec_get(f) == if f == Flag::PostureAlternativeLanding {
            match a {
                PostureAction::ToggleLanding => !old(cfg).flags.spec_get(f),
                PostureAction::ClearAll => false,
                _ => old(cfg).flags.spec_get(f),
            }
        } else {
            old(cfg).flags.spec_get(f)
        },
        final(cfg).hp_bar_tracks == old(cfg).hp_bar_tracks,
        final(cfg).map_icon_point_label == old(cfg).map_icon_point_label,
{
    match a {
        PostureAction::SetBody(v) => {
            cfg.posture_body = v;
        },
        PostureAction::SetRightArm(v) => {
            cfg.posture_right_arm = v;
        },
        PostureAction::SetLeftArm(v) => {
            cfg.posture_left_arm = v;
        },
        PostureAction::SetMovement(v) => {
            cfg.posture_movement = v;
        },
        PostureAction::ToggleLanding => {
            let now = cfg.flags.get(Flag::PostureAlternativeLanding);
            cfg.flags.set(Flag::PostureAlternativeLanding, !now);
        },
        PostureAction::ClearAll => {
            cfg.posture_body = 0;
            cfg.posture_right_arm = 0;
            cfg.posture_left_arm = 0;
            cfg.posture_movement = 0;
            cfg.flags.set(Flag::PostureAlternativeLanding, false);
        },
    }
}

/// "Posture configuration changed" ping granted after each applied effect.
pub const REFRESH_EFFECT: i32 = 6805099;
/// Alternative landing effect.
pub const ALT_LANDING_EFFECT: i32 = 6805121;
/// Effect per body style (0: none).
pub const BODY_EFFECTS: [i32; 13] = [
    0, 6805000, 6805000, 6805010, 6805020, 6805030, 6805040, 6805050, 6805060, 6805070, 6805080, 6805090, 6805100,
];
/// Effect per right-arm style (0: none).
pub const RIGHT_ARM_EFFECTS: [i32; 12] = [
    6805600, 0, 6805601, 6805602, 6805603, 6805604, 6805605, 6805606, 6805607, 6805608, 6805609, 6805610,
];
/// Effect per left-arm style (0: none).
pub const LEFT_ARM_EFFECTS: [i32; 12] = [
    6805740, 0, 6805741, 6805742, 6805743, 6805744, 6805745, 6805746, 6805747, 6805748, 6805749, 6805750,
];
/// "Maintain posture while walking/running/sprinting", always on.
pub const MAINTAIN_MOVING_EFFECTS: [i32; 3] = [6805111, 6805131, 6805141];
/// Heavy and default locomotion effects.
pub const MOVE_HEAVY_EFFECTS: [i32; 3] = [6805790, 6805792, 6805794];
pub const MOVE_DEFAULT_EFFECTS: [i32; 3] = [6805791, 6805793, 6805795];
/// Every effect the sync manages; managed effects that are not wanted are
/// removed.
pub const MANAGED_EFFECTS: [i32; 43] = [
    6805000, 6805010, 6805020, 6805030, 6805040, 6805050, 6805060, 6805070, 6805080, 6805090, 6805100,
    6805600, 6805601, 6805602, 6805603, 6805604, 6805605, 6805606, 6805607, 6805608, 6805609, 6805610,
    6805740, 6805741, 6805742, 6805743, 6805744, 6805745, 6805746, 6805747, 6805748, 6805749, 6805750,
    6805111, 6805131, 6805141, 6805121, 6805790, 6805792, 6805794, 6805791, 6805793, 6805795,
];

/// The entries of `s` that are not 0, in order.
pub open spec fn nonzero(s: Seq<i32>) -> Seq<i32>
    decreases s.len(),
{
    if s.len() == 0 {
        s
    } else if s.last() != 0 {
        nonzero(s.drop_last()).push(s.last())
    } else {
        nonzero(s.drop_last())
    }
}

/// The table entry for `value`, taken modulo the table size.
pub open spec fn pick(table: Seq<i32>, value: i32) -> i32 {
    table[(value as int) % (table.len() as int)]
}

/// The effects a configuration wants: none when postures are off; otherwise
/// the body and arm effects of the selections, the maintain-while-moving
/// effects, alternative landing when on, and the heavy or default movement
/// effects, without the "none" entries.
pub open spec fn spec_desired_effects(
    enabled: bool,
    body: i32,
    right: i32,
    left: i32,
    landing: bool,
    movement: i32,
) -> Seq<i32> {
    if !enabled {
        Seq::empty()
    } else {
        nonzero(
            seq![pick(BODY_EFFECTS@, body), pick(RIGHT_ARM_EFFECTS@, right), pick(LEFT_ARM_EFFECTS@, left)]
                + MAINTAIN_MOVING_EFFECTS@ + (if landing { seq![ALT_LANDING_EFFECT] } else { Seq::empty() })
                + (if movement != 0 { MOVE_HEAVY_EFFECTS@ } else { MOVE_DEFAULT_EFFECTS@ }),
        )
    }
}

/// The effects a configuration wants.
pub open spec fn config_desired_effects(cfg: Config) -> Seq<i32> {
    spec_desired_effects(
        cfg.flags.spec_get(Flag::PosturesEnabled),
        cfg.posture_body,
        cfg.posture_right_arm,
        cfg.posture_left_arm,
        cfg.flags.spec_get(Flag::PostureAlternativeLanding),
        cfg.posture_movement,
    )
}

fn push_nonzero(out: &mut Vec<i32>, src: &[i32], ghost_all: Ghost<Seq<i32>>)
    requires
        old(out)@ == nonzero(ghost_all@),
    ensures
        final(out)@ == nonzero(ghost_all@ + src@),
{
    let ghost all = ghost_all@;
    for i in 0..src.len()
        invariant
            out@ == nonzero(all + src@.take(i as int)),
    {
        let ghost before = all + src@.take(i as int);
        let ghost after = all + src@.take(i + 1);
        assert(after.drop_last() =~= before);
        assert(after.last() == src@[i as int]);
        if src[i] != 0 {
            out.push(src[i]);
        }
    }
    assert(src@.take(src.len() as int) =~= src@);
}

/// The effects the configuration wants, in order.
pub fn desired_effects(cfg: &Config) -> (r: Vec<i32>)
    ensures
        r@ == config_desired_effects(*cfg),
{
    let mut out: Vec<i32> = Vec::new();
    if !cfg.flags.get(Flag::PosturesEnabled) {
        return out;
    }
    let b = BODY_EFFECTS[rem_euclid(cfg.posture_body, 13)];
    let r = RIGHT_ARM_EFFECTS[rem_euclid(cfg.posture_right_arm, 12)];
    let l = LEFT_ARM_EFFECTS[rem_euclid(cfg.posture_left_arm, 12)];
    let first: [i32; 3] = [b, r, l];
    let ghost empty: Seq<i32> = Seq::empty();
    assert(out@ =~= nonzero(empty));
    push_nonzero(&mut out, &first, Ghost(empty));
    assert(empty + first@ =~= first@);
    push_nonzero(&mut out, &MAINTAIN_MOVING_EFFECTS, Ghost(first@));
    let ghost acc = first@ + MAINTAIN_MOVING_EFFECTS@;
    let landing = cfg.flags.get(Flag::PostureAlternativeLanding);
    let ghost land: Seq<i32> = if landing { seq![ALT_LANDING_EFFECT] } else { Seq::empty() };
    if landing {
        let alt: [i32; 1] = [ALT_LANDING_EFFECT];
        assert(alt@ =~= land);
        push_nonzero(&mut out, &alt, Ghost(acc));
    } else {
        assert(acc + land =~= acc);
    }
    let ghost acc2 = acc + land;
    if cfg.posture_movement != 0 {
        push_nonzero(&mut out, &MOVE_HEAVY_EFFECTS, Ghost(acc2));
    } else {
        push_nonzero(&mut out, &MOVE_DEFAULT_EFFECTS, Ghost(acc2));
    }
    assert(first@ =~= seq![
        pick(BODY_EFFECTS@, cfg.posture_body),
        pick(RIGHT_ARM_EFFECTS@, cfg.posture_right_arm),
        pick(LEFT_ARM_EFFECTS@, cfg.posture_left_arm),
    ]);
    out
}

proof fn lemma_nonzero(s: Seq<i32>)
    ensures
        forall|i: int| 0 <= i < nonzero(s).len() ==> #[trigger] nonzero(s)[i] != 0 && s.contains(nonzero(s)[i]),
    decreases s.len(),
{
    if s.len() > 0 {
        let p = s.drop_last();
        lemma_nonzero(p);
        assert forall|i: int| 0 <= i < nonzero(s).len() implies #[trigger] nonzero(s)[i] != 0 && s.contains(
            nonzero(s)[i],
        ) by {
            if i < nonzero(p).len() {
                let e = nonzero(p)[i];
                assert(nonzero(s)[i] == e);
                let j = choose|j: int| 0 <= j < p.len() && p[j] == e;
                assert(s[j] == e);
            } else {
                assert(s[s.len() - 1] == nonzero(s)[i]);
            }
        }
    }
}

proof fn lemma_body_effects_managed()
    ensures
        forall|k: int| 0 <= k < 13 ==> #[trigger] BODY_EFFECTS@[k] == 0 || MANAGED_EFFECTS@.contains(BODY_EFFECTS@[k]),
{
    let t = BODY_EFFECTS@;
    let m = MANAGED_EFFECTS@;
    assert(t[0] == 0);
    assert(t[1] == m[0]);
    assert(t[2] == m[0]);
    assert(t[3] == m[1]);
    assert(t[4] == m[2]);
    assert(t[5] == m[3]);
    assert(t[6] == m[4]);
    assert(t[7] == m[5]);
    assert(t[8] == m[6]);
    assert(t[9] == m[7]);
    assert(t[10] == m[8]);
    assert(t[11] == m[9]);
    assert(t[12] == m[10]);
    assert forall|k: int| 0 <= k < 13 implies #[trigger] t[k] == 0 || m.contains(t[k]) by {
        if t[k] != 0 {
            if k == 1 { assert(m[0] == t[k]); }
            if k == 2 { assert(m[0] == t[k]); }
            if k == 3 { assert(m[1] == t[k]); }
            if k == 4 { assert(m[2] == t[k]); }
            if k == 5 { assert(m[3] == t[k]); }
            if k == 6 { assert(m[4] == t[k]); }
            if k == 7 { assert(m[5] == t[k]); }
            if k == 8 { assert(m[6] == t[k]); }
            if k == 9 { assert(m[7] == t[k]); }
            if k == 10 { assert(m[8] == t[k]); }
            if k == 11 { assert(m[9] == t[k]); }
            if k == 12 { assert(m[10] == t[k]); }
        }
    }
}

proof fn lemma_right_arm_effects_managed()
    ensures
        forall|k: int| 0 <= k < 12 ==> #[trigger] RIGHT_ARM_EFFECTS@[k] == 0 || MANAGED_EFFECTS@.contains(RIGHT_ARM_EFFECTS@[k]),
{
    let t = RIGHT_ARM_EFFECTS@;
    let m = MANAGED_EFFECTS@;
    assert(t[0] == m[11]);
    assert(t[1] == 0);
    assert(t[2] == m[12]);
    assert(t[3] == m[13]);
    assert(t[4] == m[14]);
    assert(t[5] == m[15]);
    assert(t[6] == m[16]);
    assert(t[7] == m[17]);
    assert(t[8] == m[18]);
    assert(t[9] == m[19]);
    assert(t[10] == m[20]);
    assert(t[11] == m[21]);
    assert forall|k: int| 0 <= k < 12 implies #[trigger] t[k] == 0 || m.contains(t[k]) by {
        if t[k] != 0 {
            if k == 0 { assert(m[11] == t[k]); }
            if k == 2 { assert(m[12] == t[k]); }
            if k == 3 { assert(m[13] == t[k]); }
            if k == 4 { assert(m[14] == t[k]); }
            if k == 5 { assert(m[15] == t[k]); }
            if k == 6 { assert(m[16] == t[k]); }
            if k == 7 { assert(m[17] == t[k]); }
            if k == 8 { assert(m[18] == t[k]); }
            if k == 9 { assert(m[19] == t[k]); }
            if k == 10 { assert(m[20] == t[k]); }
            if k == 11 { assert(m[21] == t[k]); }
        }
    }
}

proof fn lemma_left_arm_effects_managed()
    ensures
        forall|k: int| 0 <= k < 12 ==> #[trigger] LEFT_ARM_EFFECTS@[k] == 0 || MANAGED_EFFECTS@.contains(LEFT_ARM_EFFECTS@[k]),
{
    let t = LEFT_ARM_EFFECTS@;
    let m = MANAGED_EFFECTS@;
    assert(t[0] == m[22]);
    assert(t[1] == 0);
    assert(t[2] == m[23]);
    assert(t[3] == m[24]);
    assert(t[4] == m[25]);
    assert(t[5] == m[26]);
    assert(t[6] == m[27]);
    assert(t[7] == m[28]);
    assert(t[8] == m[29]);
    assert(t[9] == m[30]);
    assert(t[10] == m[31]);
    assert(t[11] == m[32]);
    assert forall|k: int| 0 <= k < 12 implies #[trigger] t[k] == 0 || m.contains(t[k]) by {
        if t[k] != 0 {
            if k == 0 { assert(m[22] == t[k]); }
            if k == 2 { assert(m[23] == t[k]); }
            if k == 3 { assert(m[24] == t[k]); }
            if k == 4 { assert(m[25] == t[k]); }
            if k == 5 { assert(m[26] == t[k]); }
            if k == 6 { assert(m[27] == t[k]); }
            if k == 7 { assert(m[28] == t[k]); }
            if k == 8 { assert(m[29] == t[k]); }
            if k == 9 { assert(m[30] == t[k]); }
            if k == 10 { assert(m[31] == t[k]); }
            if k == 11 { assert(m[32] == t[k]); }
        }
    }
}

proof fn lemma_maintain_moving_effects_managed()
    ensures
        forall|k: int| 0 <= k < 3 ==> #[trigger] MAINTAIN_MOVING_EFFECTS@[k] == 0 || MANAGED_EFFECTS@.contains(MAINTAIN_MOVING_EFFECTS@[k]),
{
    let t = MAINTAIN_MOVING_EFFECTS@;
    let m = MANAGED_EFFECTS@;
    assert(t[0] == m[33]);
    assert(t[1] == m[34]);
    assert(t[2] == m[35]);
    assert forall|k: int| 0 <= k < 3 implies #[trigger] t[k] == 0 || m.contains(t[k]) by {
        if t[k] != 0 {
            if k == 0 { assert(m[33] == t[k]); }
            if k == 1 { assert(m[34] == t[k]); }
            if k == 2 { assert(m[35] == t[k]); }
        }
    }
}

proof fn lemma_move_heavy_effects_managed()
    ensures
        forall|k: int| 0 <= k < 3 ==> #[trigger] MOVE_HEAVY_EFFECTS@[k] == 0 || MANAGED_EFFECTS@.contains(MOVE_HEAVY_EFFECTS@[k]),
{
    let t = MOVE_HEAVY_EFFECTS@;
    let m = MANAGED_EFFECTS@;
    assert(t[0] == m[37]);
    assert(t[1] == m[38]);
    assert(t[2] == m[39]);
    assert forall|k: int| 0 <= k < 3 implies #[trigger] t[k] == 0 || m.contains(t[k]) by {
        if t[k] != 0 {
            if k == 0 { assert(m[37] == t[k]); }
            if k == 1 { assert(m[38] == t[k]); }
            if k == 2 { assert(m[39] == t[k]); }
        }
    }
}

proof fn lemma_move_default_effects_managed()
    ensures
        forall|k: int| 0 <= k < 3 ==> #[trigger] MOVE_DEFAULT_EFFECTS@[k] == 0 || MANAGED_EFFECTS@.contains(MOVE_DEFAULT_EFFECTS@[k]),
{
    let t = MOVE_DEFAULT_EFFECTS@;
    let m = MANAGED_EFFECTS@;
    assert(t[0] == m[40]);
    assert(t[1] == m[41]);
    assert(t[2] == m[42]);
    assert forall|k: int| 0 <= k < 3 implies #[trigger] t[k] == 0 || m.contains(t[k]) by {
        if t[k] != 0 {
            if k == 0 { assert(m[40] == t[k]); }
            if k == 1 { assert(m[41] == t[k]); }
            if k == 2 { assert(m[42] == t[k]); }
        }
    }
}

proof fn lemma_alt_landing_managed()
    ensures
        MANAGED_EFFECTS@.contains(ALT_LANDING_EFFECT),
{
    assert(MANAGED_EFFECTS@[36] == ALT_LANDING_EFFECT);
}

/// Every effect a configuration wants is a real effect (never 0) and one the
/// sync manages, so a later sync can take it away again.
pub proof fn law_desired_effects_managed(
    enabled: bool,
    body: i32,
    right: i32,
    left: i32,
    landing: bool,
    movement: i32,
)
    ensures
        forall|i: int|
            0 <= i < spec_desired_effects(enabled, body, right, left, landing, movement).len() ==> {
                let e = #[trigger] spec_desired_effects(enabled, body, right, left, landing, movement)[i];
                e != 0 && MANAGED_EFFECTS@.contains(e)
            },
{
    if enabled {
        let m = MANAGED_EFFECTS@;
        lemma_body_effects_managed();
        lemma_right_arm_effects_managed();
        lemma_left_arm_effects_managed();
        lemma_maintain_moving_effects_managed();
        lemma_move_heavy_effects_managed();
        lemma_move_default_effects_managed();
        lemma_alt_landing_managed();
        let src = seq![pick(BODY_EFFECTS@, body), pick(RIGHT_ARM_EFFECTS@, right), pick(LEFT_ARM_EFFECTS@, left)]
            + MAINTAIN_MOVING_EFFECTS@ + (if landing { seq![ALT_LANDING_EFFECT] } else { Seq::empty() })
            + (if movement != 0 { MOVE_HEAVY_EFFECTS@ } else { MOVE_DEFAULT_EFFECTS@ });
        assert forall|j: int| 0 <= j < src.len() implies #[trigger] src[j] == 0 || m.contains(src[j]) by {
            if j == 0 {
                let k = (body as int) % 13;
                assert(src[j] == BODY_EFFECTS@[k]);
            } else if j == 1 {
                let k = (right as int) % 12;
                assert(src[j] == RIGHT_ARM_EFFECTS@[k]);
            } else if j == 2 {
                let k = (left as int) % 12;
                assert(src[j] == LEFT_ARM_EFFECTS@[k]);
            } else if j < 6 {
                assert(src[j] == MAINTAIN_MOVING_EFFECTS@[j - 3]);
            } else if landing && j == 6 {
                assert(src[j] == ALT_LANDING_EFFECT);
            } else {
                let k = if landing { j - 7 } else { j - 6 };
                if movement != 0 {
                    assert(src[j] == MOVE_HEAVY_EFFECTS@[k]);
                } else {
                    assert(src[j] == MOVE_DEFAULT_EFFECTS@[k]);
                }
            }
        }
        lemma_nonzero(src);
        assert forall|i: int| 0 <= i < nonzero(src).len() implies #[trigger] nonzero(src)[i] != 0 && m.contains(
            nonzero(src)[i],
        ) by {
            let e = nonzero(src)[i];
            let j = choose|j: int| 0 <= j < src.len() && src[j] == e;
            assert(src[j] == 0 || m.contains(src[j]));
        }
    }
}

proof fn lemma_body_effects_below()
    ensures
        forall|k: int| 0 <= k < 13 ==> #[trigger] BODY_EFFECTS@[k] <= 6805100,
{
    let t = BODY_EFFECTS@;
    assert(t[0] == 0);
    assert(t[1] == 6805000);
    assert(t[2] == 6805000);
    assert(t[3] == 6805010);
    assert(t[4] == 6805020);
    assert(t[5] == 6805030);
    assert(t[6] == 6805040);
    assert(t[7] == 6805050);
    assert(t[8] == 6805060);
    assert(t[9] == 6805070);
    assert(t[10] == 6805080);
    assert(t[11] == 6805090);
    assert(t[12] == 6805100);
    assert forall|k: int| 0 <= k < 13 implies #[trigger] t[k] <= 6805100 by {
        if k == 0 {}
        if k == 1 {}
        if k == 2 {}
        if k == 3 {}
        if k == 4 {}
        if k == 5 {}
        if k == 6 {}
        if k == 7 {}
        if k == 8 {}
        if k == 9 {}
        if k == 10 {}
        if k == 11 {}
        if k == 12 {}
    }
}

proof fn lemma_right_arm_effects_below()
    ensures
        forall|k: int| 0 <= k < 12 ==> #[trigger] RIGHT_ARM_EFFECTS@[k] <= 6805610,
{
    let t = RIGHT_ARM_EFFECTS@;
    assert(t[0] == 6805600);
    assert(t[1] == 0);
    assert(t[2] == 6805601);
    assert(t[3] == 6805602);
    assert(t[4] == 6805603);
    assert(t[5] == 6805604);
    assert(t[6] == 6805605);
    assert(t[7] == 6805606);
    assert(t[8] == 6805607);
    assert(t[9] == 6805608);
    assert(t[10] == 6805609);
    assert(t[11] == 6805610);
    assert forall|k: int| 0 <= k < 12 implies #[trigger] t[k] <= 6805610 by {
        if k == 0 {}
        if k == 1 {}
        if k == 2 {}
        if k == 3 {}
        if k == 4 {}
        if k == 5 {}
        if k == 6 {}
        if k == 7 {}
        if k == 8 {}
        if k == 9 {}
        if k == 10 {}
        if k == 11 {}
    }
}

proof fn lemma_left_arm_effects_below()
    ensures
        forall|k: int| 0 <= k < 12 ==> #[trigger] LEFT_ARM_EFFECTS@[k] <= 6805750,
{
    let t = LEFT_ARM_EFFECTS@;
    assert(t[0] == 6805740);
    assert(t[1] == 0);
    assert(t[2] == 6805741);
    assert(t[3] == 6805742);
    assert(t[4] == 6805743);
    assert(t[5] == 6805744);
    assert(t[6] == 6805745);
    assert(t[7] == 6805746);
    assert(t[8] == 6805747);
    assert(t[9] == 6805748);
    assert(t[10] == 6805749);
    assert(t[11] == 6805750);
    assert forall|k: int| 0 <= k < 12 implies #[trigger] t[k] <= 6805750 by {
        if k == 0 {}
        if k == 1 {}
        if k == 2 {}
        if k == 3 {}
        if k == 4 {}
        if k == 5 {}
        if k == 6 {}
        if k == 7 {}
        if k == 8 {}
        if k == 9 {}
        if k == 10 {}
        if k == 11 {}
    }
}

proof fn lemma_nonzero_contains(s: Seq<i32>, x: i32)
    requires
        s.contains(x),
        x != 0,
    ensures
        nonzero(s).contains(x),
    decreases s.len(),
{
    let p = s.drop_last();
    if s.last() == x {
        assert(nonzero(s).last() == x);
        assert(nonzero(s)[nonzero(s).len() - 1] == x);
    } else {
        let j = choose|j: int| 0 <= j < s.len() && s[j] == x;
        assert(j < s.len() - 1);
        assert(p[j] == x);
        lemma_nonzero_contains(p, x);
        let i = choose|i: int| 0 <= i < nonzero(p).len() && nonzero(p)[i] == x;
        if s.last() != 0 {
            assert(nonzero(s)[i] == x);
        }
    }
}

/// The movement selection picks the locomotion effects: with postures on,
/// a non-zero movement (Heavy) wants the heavy effects 6805790, 6805792 and
/// 6805794 and none of the default ones 6805791, 6805793 and 6805795, and
/// movement 0 (Default) wants the default ones and none of the heavy ones.
pub proof fn law_movement_effects(body: i32, right: i32, left: i32, landing: bool, movement: i32)
    ensures
        ({
            let d = spec_desired_effects(true, body, right, left, landing, movement);
            let heavy = movement != 0;
            &&& d.contains(6805790i32) == heavy
            &&& d.contains(6805792i32) == heavy
            &&& d.contains(6805794i32) == heavy
            &&& d.contains(6805791i32) == !heavy
            &&& d.contains(6805793i32) == !heavy
            &&& d.contains(6805795i32) == !heavy
        }),
{
    lemma_body_effects_below();
    lemma_right_arm_effects_below();
    lemma_left_arm_effects_below();
    let mv = if movement != 0 { MOVE_HEAVY_EFFECTS@ } else { MOVE_DEFAULT_EFFECTS@ };
    let head = seq![pick(BODY_EFFECTS@, body), pick(RIGHT_ARM_EFFECTS@, right), pick(LEFT_ARM_EFFECTS@, left)]
        + MAINTAIN_MOVING_EFFECTS@ + (if landing { seq![ALT_LANDING_EFFECT] } else { Seq::empty() });
    let src = head + mv;
    assert(pick(BODY_EFFECTS@, body) <= 6805100) by {
        let k = (body as int) % 13;
        assert(BODY_EFFECTS@[k] <= 6805100);
    }
    assert(pick(RIGHT_ARM_EFFECTS@, right) <= 6805610) by {
        let k = (right as int) % 12;
        assert(RIGHT_ARM_EFFECTS@[k] <= 6805610);
    }
    assert(pick(LEFT_ARM_EFFECTS@, left) <= 6805750) by {
        let k = (left as int) % 12;
        assert(LEFT_ARM_EFFECTS@[k] <= 6805750);
    }
    assert forall|j: int| 0 <= j < head.len() implies #[trigger] head[j] <= 6805750 by {
        if 3 <= j < 6 {
            assert(head[j] == MAINTAIN_MOVING_EFFECTS@[j - 3]);
        }
    }
    assert(mv.len() == 3);
    assert forall|x: i32| x >= 6805790 implies (#[trigger] src.contains(x) <==> mv.contains(x)) by {
        if src.contains(x) {
            let j = choose|j: int| 0 <= j < src.len() && src[j] == x;
            if j < head.len() {
                assert(src[j] == head[j]);
            } else {
                assert(mv[j - head.len()] == x);
            }
        }
        if mv.contains(x) {
            let j = choose|j: int| 0 <= j < mv.len() && mv[j] == x;
            assert(src[head.len() + j] == x);
        }
    }
    let d = nonzero(src);
    lemma_nonzero(src);
    assert forall|x: i32| x >= 6805790 implies (#[trigger] d.contains(x) <==> mv.contains(x)) by {
        if d.contains(x) {
            let i = choose|i: int| 0 <= i < d.len() && d[i] == x;
            assert(src.contains(d[i]));
        }
        if mv.contains(x) {
            assert(src.contains(x));
            lemma_nonzero_contains(src, x);
        }
    }
    let h = MOVE_HEAVY_EFFECTS@;
    let f = MOVE_DEFAULT_EFFECTS@;
    assert(h[0] == 6805790 && h[1] == 6805792 && h[2] == 6805794);
    assert(f[0] == 6805791 && f[1] == 6805793 && f[2] == 6805795);
    assert(h.contains(6805790i32) && h.contains(6805792i32) && h.contains(6805794i32));
    assert(f.contains(6805791i32) && f.contains(6805793i32) && f.contains(6805795i32));
    assert(!h.contains(6805791i32) && !h.contains(6805793i32) && !h.contains(6805795i32)) by {
        assert forall|j: int| 0 <= j < 3 implies h[j] != 6805791 && h[j] != 6805793 && h[j] != 6805795 by {}
    }
    assert(!f.contains(6805790i32) && !f.contains(6805792i32) && !f.contains(6805794i32)) by {
        assert forall|j: int| 0 <= j < 3 implies f[j] != 6805790 && f[j] != 6805792 && f[j] != 6805794 by {}
    }
    assert(d.contains(6805790i32) == mv.contains(6805790i32));
    assert(d.contains(6805792i32) == mv.contains(6805792i32));
    assert(d.contains(6805794i32) == mv.contains(6805794i32));
    assert(d.contains(6805791i32) == mv.contains(6805791i32));
    assert(d.contains(6805793i32) == mv.contains(6805793i32));
    assert(d.contains(6805795i32) == mv.contains(6805795i32));
}

/// A selection value picks its table entry cyclically: a value inside the
/// table picks that entry, and a value one table-length lower picks the same
/// entry, so -1 picks the last entry (body style -1 is effect 6805100).
pub proof fn law_pick_cyclic(table: Seq<i32>, v: i32)
    requires
        table.len() > 0,
    ensures
        0 <= v < table.len() ==> pick(table, v) == table[v as int],
        -(table.len() as int) <= v < 0 ==> pick(table, v) == table[v + table.len()],
        pick(BODY_EFFECTS@, -1i32) == 6805100i32,
{
    let n = table.len() as int;
    if -n <= v < 0 {
        assert((v as int) % n == v + n) by (nonlinear_arith)
            requires
                -n <= v < 0,
                n > 0,
        ;
    }
    if 0 <= v < n {
        assert((v as int) % n == v) by (nonlinear_arith)
            requires
                0 <= v < n,
        ;
    }
    assert((-1int) % 13 == 12) by (nonlinear_arith);
    assert(BODY_EFFECTS@[12] == 6805100);
}

/// What one sync pass does to the player's effects: the managed effects to
/// remove (unwanted but present, in managed order) and the wanted effects to
/// apply (missing, in wanted order; each followed by the refresh ping).
pub struct SyncPlan {
    pub remove: Vec<i32>,
    pub apply: Vec<i32>,
}

/// The elements of `s` that satisfy `p`, in order.
pub open spec fn keep(s: Seq<i32>, p: spec_fn(i32) -> bool) -> Seq<i32>
    decreases s.len(),
{
    if s.len() == 0 {
        s
    } else if p(s.last()) {
        keep(s.drop_last(), p).push(s.last())
    } else {
        keep(s.drop_last(), p)
    }
}

fn contains_i32(s: &[i32], x: i32) -> (r: bool)
    ensures
        r == s@.contains(x),
{
    for i in 0..s.len()
        invariant
            forall|k: int| 0 <= k < i ==> s@[k] != x,
    {
        if s[i] == x {
            assert(s@[i as int] == x);
            return true;
        }
    }
    false
}

/// Plans a sync pass against the effect ids the player currently has. The
/// wanted effects never repeat, so each missing one is applied once.
pub fn sync_plan(desired: &[i32], present: &[i32]) -> (r: SyncPlan)
    ensures
        r.remove@ == keep(MANAGED_EFFECTS@, |e: i32| !desired@.contains(e) && present@.contains(e)),
        r.apply@ == keep(desired@, |e: i32| !present@.contains(e)),
{
    let ghost pr = |e: i32| !desired@.contains(e) && present@.contains(e);
    let ghost pa = |e: i32| !present@.contains(e);
    let mut remove: Vec<i32> = Vec::new();
    for i in 0..MANAGED_EFFECTS.len()
        invariant
            pr == (|e: i32| !desired@.contains(e) && present@.contains(e)),
            remove@ == keep(MANAGED_EFFECTS@.take(i as int), pr),
    {
        let e = MANAGED_EFFECTS[i];
        let ghost nxt = MANAGED_EFFECTS@.take(i + 1);
        assert(nxt.drop_last() =~= MANAGED_EFFECTS@.take(i as int));
        assert(nxt.last() == e);
        let keep_it = !contains_i32(desired, e) && contains_i32(present, e);
        assert(keep_it == pr(e));
        if keep_it {
            remove.push(e);
        }
        assert(remove@ == keep(nxt, pr));
    }
    assert(MANAGED_EFFECTS@.take(43) =~= MANAGED_EFFECTS@);
    let mut apply: Vec<i32> = Vec::new();
    for i in 0..desired.len()
        invariant
            pa == (|e: i32| !present@.contains(e)),
            apply@ == keep(desired@.take(i as int), pa),
    {
        let e = desired[i];
        let ghost nxt = desired@.take(i + 1);
        assert(nxt.drop_last() =~= desired@.take(i as int));
        assert(nxt.last() == e);
        let keep_it = !contains_i32(present, e);
        assert(keep_it == pa(e));
        if keep_it {
            apply.push(e);
        }
        assert(apply@ == keep(nxt, pa));
    }
    assert(desired@.take(desired.len() as int) =~= desired@);
    SyncPlan { remove, apply }
}

/// Frames between periodic re-syncs (about half a second at 60 fps).
pub const SYNC_INTERVAL_TICKS: u64 = 30;

/// The sync schedule: a pending request and the frame counter.
#[derive(Clone, Copy, Debug)]
pub struct PostureSync {
    pub request: bool,
    pub ticks: u64,
}

/// One frame of the schedule: whether to sync, and the next schedule state.
pub open spec fn spec_tick(s: PostureSync) -> (bool, PostureSync) {
    (
        s.request || s.ticks % SYNC_INTERVAL_TICKS == 0,
        PostureSync { request: false, ticks: if s.ticks == u64::MAX { 0 } else { (s.ticks + 1) as u64 } },
    )
}

impl PostureSync {
    /// A schedule that syncs on its first frame.
    pub fn new() -> (r: Self)
        ensures
            r.request,
            r.ticks == 0,
    {
        PostureSync { request: true, ticks: 0 }
    }

    /// Advances one frame; returns whether this frame syncs: on request, and
    /// every `SYNC_INTERVAL_TICKS` frames.
    pub fn tick(&mut self) -> (due: bool)
        ensures
            (due, *final(self)) == spec_tick(*old(self)),
    {
        let force = self.request;
        self.request = false;
        let t = self.ticks;
        self.ticks = if t == u64::MAX { 0 } else { t + 1 };
        force || t % SYNC_INTERVAL_TICKS == 0
    }
}

/// Asks for a sync on the next frame (after a menu change).
pub fn request_sync(sync: &mut PostureSync)
    ensures
        final(sync).request,
        final(sync).ticks == old(sync).ticks,
{
    sync.request = true;
}

/// A requested sync happens on the very next frame.
pub proof fn law_request_served(s: PostureSync)
    ensures
        spec_tick(PostureSync { request: true, ..s }).0,
{
}

/// Among any `SYNC_INTERVAL_TICKS` consecutive frames (without counter
/// wrap-around) at least one syncs, requested or not.
pub proof fn law_periodic_sync(t: u64)
    requires
        t + SYNC_INTERVAL_TICKS <= u64::MAX,
    ensures
        exists|k: int|
            0 <= k < SYNC_INTERVAL_TICKS && #[trigger] spec_tick(PostureSync { request: false, ticks: (t + k) as u64 }).0,
{
    let k: int = (30 - (t as int) % 30) % 30;
    assert((t + k) % 30 == 0);
    assert(spec_tick(PostureSync { request: false, ticks: (t + k) as u64 }).0);
}

} // verus!

//! Skips the confirmation dialog of the flask / upgrade flows by redirecting
//! the transition that enters the dialog state straight to the state the
//! dialog's OK branch (`#B9 == 0`) leads to.

use vstd::prelude::*;
use crate::esd::{
    StateGroup, dialog_branch, find_dialog_state, incoming_branch, incoming_edge,
    is_plain_true_state, lex_before, redirect_transition, redirected, spec_is_plain_true_state,
};

verus! {

/// Golden seed flask allocation.
pub const GOLDEN_SEED_GROUP: i32 = 2147483640;
/// Sacred tear flask upgrade.
pub const SACRED_TEAR_GROUP: i32 = 2147483641;
/// Scadutree blessing upgrade.
pub const SCADUTREE_BLESSING_GROUP: i32 = 2147483572;
/// Revered spirit ash upgrade.
pub const REVERED_SPIRIT_ASH_GROUP: i32 = 2147483571;

/// The array index of the OK pass-through state of each confirm group: the
/// base-game flask groups flow to index 6, the DLC upgrade groups to index 9.
pub open spec fn spec_confirm_ok_index(group_id: i32) -> Option<usize> {
    if group_id == GOLDEN_SEED_GROUP || group_id == SACRED_TEAR_GROUP {
        Some(6)
    } else if group_id == SCADUTREE_BLESSING_GROUP || group_id == REVERED_SPIRIT_ASH_GROUP {
        Some(9)
    } else {
        None
    }
}

/// Exactly four talk groups carry a skippable confirmation: the golden seed
/// (2147483640) and sacred tear (2147483641) flask groups, whose OK state is
/// the seventh (index 6), and the scadutree blessing (2147483572) and revered
/// spirit ash (2147483571) upgrade groups, whose OK state is the tenth
/// (index 9).
pub proof fn law_confirm_groups(group_id: i32)
    ensures
        spec_confirm_ok_index(group_id) == if group_id == 2147483640 || group_id == 2147483641 {
            Some(6usize)
        } else if group_id == 2147483572 || group_id == 2147483571 {
            Some(9usize)
        } else {
            None
        },
{
}

pub fn confirm_ok_index(group_id: i32) -> (r: Option<usize>)
    ensures
        r == spec_confirm_ok_index(group_id),
{
    if group_id == GOLDEN_SEED_GROUP || group_id == SACRED_TEAR_GROUP {
        Some(6)
    } else if group_id == SCADUTREE_BLESSING_GROUP || group_id == REVERED_SPIRIT_ASH_GROUP {
        Some(9)
    } else {
        None
    }
}

/// The name the log gives a confirm group.
pub open spec fn group_name(group_id: i32) -> Seq<char> {
    if group_id == GOLDEN_SEED_GROUP {
        "golden seed"@
    } else if group_id == SACRED_TEAR_GROUP {
        "sacred tear"@
    } else if group_id == SCADUTREE_BLESSING_GROUP {
        "scadutree blessing"@
    } else if group_id == REVERED_SPIRIT_ASH_GROUP {
        "revered spirit ash"@
    } else {
        "unknown"@
    }
}

/// The human-readable name of a confirm group, for the log.
pub fn confirm_group_name(group_id: i32) -> (r: &'static str)
    ensures
        r@ == group_name(group_id),
{
    if group_id == GOLDEN_SEED_GROUP {
        "golden seed"
    } else if group_id == SACRED_TEAR_GROUP {
        "sacred tear"
    } else if group_id == SCADUTREE_BLESSING_GROUP {
        "scadutree blessing"
    } else if group_id == REVERED_SPIRIT_ASH_GROUP {
        "revered spirit ash"
    } else {
        "unknown"
    }
}

/// What the patch rewrites: transition `transition` of state `state` gets the
/// target `ok_target`.
#[derive(Clone, Copy, PartialEq, Eq, Structural, Debug)]
pub struct SkipConfirmPlan {
    pub state: usize,
    pub transition: usize,
    pub ok_target: u64,
}

/// `(i, j)` is the first confirm-dialog OK branch towards `ok`.
pub open spec fn first_dialog_branch(g: StateGroup, ok: u64, i: int, j: int) -> bool {
    dialog_branch(g, ok, i, j) && forall|i2: int, j2: int|
        lex_before(i2, j2, i, j) ==> !dialog_branch(g, ok, i2, j2)
}

/// `(i, j)` is the first transition from another state reaching `target`.
pub open spec fn first_incoming_branch(g: StateGroup, target: u64, i: int, j: int) -> bool {
    incoming_branch(g, target, i, j) && forall|i2: int, j2: int|
        lex_before(i2, j2, i, j) ==> !incoming_branch(g, target, i2, j2)
}

/// The group is one whose confirmation can be skipped: the feature is on, the
/// group has a confirm spec, its OK state exists and is a plain pass-through.
pub open spec fn skippable_group(g: StateGroup, enabled: bool) -> bool {
    &&& enabled
    &&& spec_confirm_ok_index(g.id) is Some
    &&& spec_confirm_ok_index(g.id)->0 < g.states@.len()
    &&& spec_is_plain_true_state(g.states@[spec_confirm_ok_index(g.id)->0 as int])
}

/// The address of the group's OK state.
pub open spec fn ok_state_addr(g: StateGroup) -> u64 {
    g.states@[spec_confirm_ok_index(g.id)->0 as int].addr
}

/// Decides the redirect that skips the group's confirmation dialog.
pub fn plan_skip_confirm(group: &StateGroup, enabled: bool) -> (r: Option<SkipConfirmPlan>)
    ensures
        r matches Some(p) ==> {
            &&& skippable_group(*group, enabled)
            &&& p.ok_target == ok_state_addr(*group)
            &&& exists|ci: int, cj: int|
                first_dialog_branch(*group, ok_state_addr(*group), ci, cj)
                    && first_incoming_branch(
                    *group,
                    group.states@[ci].addr,
                    p.state as int,
                    p.transition as int,
                )
        },
        r is None ==> {
            ||| !skippable_group(*group, enabled)
            ||| forall|ci: int, cj: int| !dialog_branch(*group, ok_state_addr(*group), ci, cj)
            ||| exists|ci: int, cj: int|
                first_dialog_branch(*group, ok_state_addr(*group), ci, cj) && forall|i: int, j: int|
                    !incoming_branch(*group, group.states@[ci].addr, i, j)
        },
{
    if !enabled {
        return None;
    }
    let ok_index = match confirm_ok_index(group.id) {
        Some(k) => k,
        None => return None,
    };
    if ok_index >= group.states.len() {
        return None;
    }
    if !is_plain_true_state(&group.states[ok_index]) {
        return None;
    }
    let ok_target = group.states[ok_index].addr;
    let (ci, cj) = match find_dialog_state(group, ok_target) {
        Some(c) => c,
        None => return None,
    };
    let confirm_addr = group.states[ci].addr;
    match incoming_edge(group, confirm_addr) {
        Some((ei, ej)) => {
            assert(first_dialog_branch(*group, ok_state_addr(*group), ci as int, cj as int));
            Some(SkipConfirmPlan { state: ei, transition: ej, ok_target })
        },
        None => {
            assert(first_dialog_branch(*group, ok_state_addr(*group), ci as int, cj as int));
            None
        },
    }
}

/// The group's confirmation can be skipped: it is skippable, it has a
/// confirm-dialog OK branch, and some transition of another state enters the
/// first such dialog state.
pub open spec fn skip_possible(g: StateGroup, enabled: bool) -> bool {
    &&& skippable_group(g, enabled)
    &&& exists|ci: int, cj: int|
        #[trigger] first_dialog_branch(g, ok_state_addr(g), ci, cj) && exists|i: int, j: int|
            #[trigger] incoming_branch(g, g.states@[ci].addr, i, j)
}

/// There is only one first dialog branch.
proof fn lemma_first_dialog_unique(g: StateGroup, ok: u64, a: int, b: int, c: int, d: int)
    requires
        first_dialog_branch(g, ok, a, b),
        first_dialog_branch(g, ok, c, d),
    ensures
        a == c && b == d,
{
    if lex_before(a, b, c, d) {
        assert(!dialog_branch(g, ok, a, b));
    } else if lex_before(c, d, a, b) {
        assert(!dialog_branch(g, ok, c, d));
    }
}

/// Skips the confirmation dialog of a flask / upgrade group: redirects the
/// transition that enters the dialog state straight to the OK state. Returns
/// whether the group was changed.
pub fn skip_confirm_patch(group: &mut StateGroup, enabled: bool) -> (r: bool)
    ensures
        r == skip_possible(*old(group), enabled),
        r ==> exists|p: SkipConfirmPlan|
            plan_skip_confirm_result(*old(group), enabled, p) && redirected(
                *final(group),
                *old(group),
                p.state as int,
                p.transition as int,
                p.ok_target,
            ),
        !r ==> *final(group) == *old(group),
{
    let ghost g0 = *group;
    match plan_skip_confirm(group, enabled) {
        Some(p) => {
            proof {
                let (ci, cj) = choose|ci: int, cj: int|
                    first_dialog_branch(g0, ok_state_addr(g0), ci, cj) && first_incoming_branch(
                        g0,
                        g0.states@[ci].addr,
                        p.state as int,
                        p.transition as int,
                    );
                assert(incoming_branch(g0, g0.states@[ci].addr, p.state as int, p.transition as int));
                assert(skip_possible(g0, enabled));
            }
            let ok = redirect_transition(group, p.state, p.transition, p.ok_target);
            assert(ok);
            assert(plan_skip_confirm_result(g0, enabled, p));
            ok
        },
        None => {
            proof {
                if skip_possible(g0, enabled) {
                    let (ci, cj) = choose|ci: int, cj: int|
                        #[trigger] first_dialog_branch(g0, ok_state_addr(g0), ci, cj) && exists|i: int, j: int|
                            #[trigger] incoming_branch(g0, g0.states@[ci].addr, i, j);
                    assert(dialog_branch(g0, ok_state_addr(g0), ci, cj));
                    let (i, j) = choose|i: int, j: int| #[trigger] incoming_branch(g0, g0.states@[ci].addr, i, j);
                    let (c2, d2) = choose|c2: int, d2: int|
                        first_dialog_branch(g0, ok_state_addr(g0), c2, d2) && forall|i: int, j: int|
                            !incoming_branch(g0, g0.states@[c2].addr, i, j);
                    if first_dialog_branch(g0, ok_state_addr(g0), c2, d2) {
                        lemma_first_dialog_unique(g0, ok_state_addr(g0), ci, cj, c2, d2);
                        assert(!incoming_branch(g0, g0.states@[c2].addr, i, j));
                    }
                }
            }
            false
        },
    }
}

/// `p` is what [`plan_skip_confirm`] returns for `g`.
pub open spec fn plan_skip_confirm_result(g: StateGroup, enabled: bool, p: SkipConfirmPlan) -> bool {
    &&& skippable_group(g, enabled)
    &&& p.ok_target == ok_state_addr(g)
    &&& exists|ci: int, cj: int|
        first_dialog_branch(g, ok_state_addr(g), ci, cj) && first_incoming_branch(
            g,
            g.states@[ci].addr,
            p.state as int,
            p.transition as int,
        )
}

} // verus!

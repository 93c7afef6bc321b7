//! What the `EzState::EnterState` hook decides around each state entry: whether
//! to log the entry, which patchers run (grace-menu patchers on a grace
//! menu's initial state, group patchers on any group's initial state), and
//! which registered action runs after the game entered one of the mod's
//! action states.

use vstd::prelude::*;
use crate::esd::{arg_int, event_arg_int, is_grace_state_group, spec_is_grace_state_group, Event, StateGroup};
use crate::menu::{registered_action, ActionRegistry};

verus! {

/// Group ids above this are talk scripts whose entries are logged.
pub const DIAG_GROUP_THRESHOLD: i32 = 2147480000;

/// The decisions taken before the game's own `EnterState` runs.
#[derive(Clone, Copy, Debug, PartialEq, Eq, Structural)]
pub struct EnterStatePlan {
    pub log_diag: bool,
    pub run_grace_patchers: bool,
    pub run_group_patchers: bool,
}

pub open spec fn spec_enter_state_plan(state: u64, group: Option<StateGroup>) -> EnterStatePlan {
    match group {
        None => EnterStatePlan { log_diag: false, run_grace_patchers: false, run_group_patchers: false },
        Some(g) => EnterStatePlan {
            log_diag: g.id > DIAG_GROUP_THRESHOLD,
            run_grace_patchers: state == g.initial_state && spec_is_grace_state_group(g),
            run_group_patchers: state == g.initial_state,
        },
    }
}

/// Decides what happens when the state machine enters the state at `state`
/// of `group` (`None` when the machine or its group is null): talk-script
/// groups are logged, and entering a group's initial state runs the group
/// patchers, and on grace menus the grace-menu patchers too.
pub fn enter_state_plan(state: u64, group: Option<&StateGroup>) -> (r: EnterStatePlan)
    ensures
        r == spec_enter_state_plan(
            state,
            match group {
                Some(g) => Some(*g),
                None => None,
            },
        ),
{
    match group {
        None => EnterStatePlan { log_diag: false, run_grace_patchers: false, run_group_patchers: false },
        Some(g) => {
            let at_initial = state == g.initial_state;
            let grace = if at_initial {
                is_grace_state_group(g)
            } else {
                false
            };
            EnterStatePlan {
                log_diag: g.id > DIAG_GROUP_THRESHOLD,
                run_grace_patchers: at_initial && grace,
                run_group_patchers: at_initial,
            }
        },
    }
}

/// The integer arguments of an event as the diagnostic log lists them: the
/// first four, stopping at the first that is not an integer (`-1`).
pub open spec fn diag_args(e: Event, k: int) -> Seq<int>
    decreases k,
{
    if k <= 0 {
        Seq::empty()
    } else {
        let prev = diag_args(e, k - 1);
        if prev.len() == k - 1 && arg_int(e, k - 1) != -1 {
            prev.push(arg_int(e, k - 1))
        } else {
            prev
        }
    }
}

pub fn diag_event_args(e: &Event) -> (r: Vec<i32>)
    ensures
        r@.map_values(|v: i32| v as int) == diag_args(*e, 4),
{
    let mut out: Vec<i32> = Vec::new();
    let mut stopped = false;
    for ai in 0..4
        invariant
            out@.map_values(|v: i32| v as int) == diag_args(*e, ai as int),
            !stopped ==> out@.len() == ai,
            stopped ==> out@.len() < ai,
    {
        if !stopped {
            let v = event_arg_int(e, ai);
            if v == -1 {
                stopped = true;
            } else {
                let ghost before = out@;
                out.push(v);
                assert(out@.map_values(|v: i32| v as int) =~= before.map_values(|v: i32| v as int).push(v as int));
            }
        }
    }
    out
}

/// The action to run after the game entered the state at `state`: the one
/// registered for that address (none for a null state).
pub fn action_after_enter(registry: &ActionRegistry, state: u64) -> (r: Option<u64>)
    ensures
        r == if state == 0 {
            None
        } else {
            registered_action(registry.entries@, state)
        },
{
    if state == 0 {
        None
    } else {
        registry.action_for(state)
    }
}

} // verus!

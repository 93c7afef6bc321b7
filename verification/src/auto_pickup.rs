//! Auto pickup: which action-button ids are ground-item pickups, and the
//! decision the `ExecActionButton` hook takes for each id it sees.

use vstd::prelude::*;

verus! {

/// Base-game action-button ids of ground items and item lots.
pub const BASE_AUTO_PICKUP_ITEM_IDS: [i32; 94] = [
    1000, 4000, 4110, 4200, 4201, 4202, 4250, 4251, 4252, 4253, 4260, 4270, 4280, 4300, 4350, 6361, 9532,
    4100, 7800, 7810, 7811, 7812, 7813, 7814, 7815, 7816, 7817, 7818, 7819, 7820, 7821, 7822, 7823, 7824,
    7825, 7826, 7827, 7828, 7850, 7860, 7861, 7862, 7863, 7864, 7865, 7866, 7867, 7868, 7869, 7870, 7871,
    7872, 7873, 7874, 7875, 7876, 7877, 7878, 207800, 207810, 207811, 207812, 207813, 207814, 207815, 207816,
    207817, 207818, 207819, 207820, 207821, 207822, 207823, 207824, 207825, 207826, 207827, 207828, 207829,
    207830, 207831, 207832, 207833, 207834, 207835, 207836, 207837, 207838, 207839, 207840, 207841, 207842,
    207843, 207844,
];

/// How many base ids there are.
pub const BASE_ID_COUNT: usize = 94;

/// Elden Ring Reforged's Rune Piece pickup ids.
pub const REFORGED_AUTO_PICKUP_ITEM_IDS: [i32; 2] = [7829, 7879];

/// The base ids.
pub open spec fn base_ids() -> Seq<i32> {
    BASE_AUTO_PICKUP_ITEM_IDS@
}

/// The pickup ids: the base ids, plus the Rune Piece ids when Reforged is
/// loaded.
pub open spec fn is_pickup_source(reforged: bool, x: i32) -> bool {
    base_ids().contains(x) || (reforged && REFORGED_AUTO_PICKUP_ITEM_IDS@.contains(x))
}

/// Strictly increasing.
pub open spec fn strictly_sorted(s: Seq<i32>) -> bool {
    forall|i: int, j: int| 0 <= i < j < s.len() ==> s[i] < s[j]
}

/// Inserts `x` into a strictly increasing vector unless it is present.
fn insert_sorted_unique(v: &mut Vec<i32>, x: i32)
    requires
        strictly_sorted(old(v)@),
    ensures
        strictly_sorted(final(v)@),
        forall|y: i32| final(v)@.contains(y) <==> (old(v)@.contains(y) || y == x),
{
    let mut i: usize = 0;
    while i < v.len() && v[i] < x
        invariant
            v@ == old(v)@,
            strictly_sorted(v@),
            i <= v.len(),
            forall|k: int| 0 <= k < i ==> v@[k] < x,
        decreases v.len() - i,
    {
        i = i + 1;
    }
    if i < v.len() && v[i] == x {
        assert forall|y: i32| v@.contains(y) <==> (v@.contains(y) || y == x) by {
            if y == x {
                assert(v@[i as int] == x);
            }
        }
        return;
    }
    let ghost before = v@;
    assert(before == old(v)@);
    v.insert(i, x);
    proof {
        lemma_insert_contains(before, i as int, x);
    }
}

proof fn lemma_insert_contains(s: Seq<i32>, i: int, x: i32)
    requires
        0 <= i <= s.len(),
    ensures
        forall|y: i32| #[trigger] s.insert(i, x).contains(y) <==> (s.contains(y) || y == x),
{
    let t = s.insert(i, x);
    assert forall|y: i32| #[trigger] t.contains(y) <==> (s.contains(y) || y == x) by {
        if t.contains(y) {
            let k = choose|k: int| 0 <= k < t.len() && t[k] == y;
            if k < i {
                assert(s[k] == y);
            } else if k > i {
                assert(s[k - 1] == y);
            }
        }
        if s.contains(y) {
            let k = choose|k: int| 0 <= k < s.len() && s[k] == y;
            if k < i {
                assert(t[k] == y);
            } else {
                assert(t[k + 1] == y);
            }
        }
        if y == x {
            assert(t[i] == x);
        }
    }
}

/// The sorted, de-duplicated pickup id list.
pub fn pickup_ids(reforged: bool) -> (r: Vec<i32>)
    ensures
        strictly_sorted(r@),
        forall|x: i32| r@.contains(x) <==> is_pickup_source(reforged, x),
{
    let mut v: Vec<i32> = Vec::new();
    for i in 0..BASE_ID_COUNT
        invariant
            strictly_sorted(v@),
            forall|x: i32| v@.contains(x) <==> BASE_AUTO_PICKUP_ITEM_IDS@.take(i as int).contains(x),
    {
        let ghost before = BASE_AUTO_PICKUP_ITEM_IDS@.take(i as int);
        insert_sorted_unique(&mut v, BASE_AUTO_PICKUP_ITEM_IDS[i]);
        proof {
            let after = BASE_AUTO_PICKUP_ITEM_IDS@.take(i + 1);
            assert(after =~= before.push(BASE_AUTO_PICKUP_ITEM_IDS@[i as int]));
            assert forall|x: i32| after.contains(x) <==> (before.contains(x) || x == BASE_AUTO_PICKUP_ITEM_IDS@[i as int]) by {
                if after.contains(x) {
                    let k = choose|k: int| 0 <= k < after.len() && after[k] == x;
                    if k < i {
                        assert(before[k] == x);
                    }
                }
                if before.contains(x) {
                    let k = choose|k: int| 0 <= k < before.len() && before[k] == x;
                    assert(after[k] == x);
                }
                if x == BASE_AUTO_PICKUP_ITEM_IDS@[i as int] {
                    assert(after[i as int] == x);
                }
            }
        }
    }
    assert(BASE_AUTO_PICKUP_ITEM_IDS@.take(BASE_ID_COUNT as int) =~= BASE_AUTO_PICKUP_ITEM_IDS@);
    if reforged {
        let ghost mid = v@;
        insert_sorted_unique(&mut v, REFORGED_AUTO_PICKUP_ITEM_IDS[0]);
        insert_sorted_unique(&mut v, REFORGED_AUTO_PICKUP_ITEM_IDS[1]);
        assert forall|x: i32| v@.contains(x) <==> is_pickup_source(reforged, x) by {
            if REFORGED_AUTO_PICKUP_ITEM_IDS@.contains(x) {
                let k = choose|k: int| 0 <= k < 2 && REFORGED_AUTO_PICKUP_ITEM_IDS@[k] == x;
            }
            if x == REFORGED_AUTO_PICKUP_ITEM_IDS@[0] || x == REFORGED_AUTO_PICKUP_ITEM_IDS@[1] {
                assert(REFORGED_AUTO_PICKUP_ITEM_IDS@.contains(x));
            }
        }
    }
    v
}

/// Binary search of a strictly increasing list.
pub fn sorted_contains(ids: &[i32], x: i32) -> (r: bool)
    requires
        strictly_sorted(ids@),
    ensures
        r == ids@.contains(x),
{
    let mut lo: usize = 0;
    let mut hi: usize = ids.len();
    while lo < hi
        invariant
            lo <= hi <= ids.len(),
            strictly_sorted(ids@),
            forall|k: int| 0 <= k < lo ==> ids@[k] < x,
            forall|k: int| hi <= k < ids.len() ==> ids@[k] > x,
        decreases hi - lo,
    {
        let mid = lo + (hi - lo) / 2;
        if ids[mid] == x {
            assert(ids@[mid as int] == x);
            return true;
        } else if ids[mid] < x {
            lo = mid + 1;
        } else {
            hi = mid;
        }
    }
    assert(!ids@.contains(x)) by {
        if ids@.contains(x) {
            let k = choose|k: int| 0 <= k < ids@.len() && ids@[k] == x;
        }
    }
    false
}

/// What the hook does for one action-button id.
#[derive(Clone, Copy, Debug, PartialEq, Eq, Structural)]
pub struct PickupDecision {
    /// The id differs from the last one logged: log it (and remember it).
    pub log_seen: bool,
    /// A Rune Piece id missing from the pickup list.
    pub warn_missing_rune_piece: bool,
    /// Answer 1 (interact automatically) instead of calling the game.
    pub auto_interact: bool,
}

/// Decides the hook's answer for `entry_id`: interact automatically when the
/// feature is on and the id is a pickup id; otherwise let the game decide.
pub fn pickup_decision(ids: &[i32], entry_id: i32, enabled: bool, last_logged: i32) -> (r: PickupDecision)
    requires
        strictly_sorted(ids@),
    ensures
        r.log_seen == (entry_id != last_logged),
        r.warn_missing_rune_piece == (REFORGED_AUTO_PICKUP_ITEM_IDS@.contains(entry_id) && !ids@.contains(entry_id)),
        r.auto_interact == (enabled && ids@.contains(entry_id)),
{
    let listed = sorted_contains(ids, entry_id);
    let is_reforged_id = entry_id == REFORGED_AUTO_PICKUP_ITEM_IDS[0] || entry_id == REFORGED_AUTO_PICKUP_ITEM_IDS[1];
    assert(is_reforged_id == REFORGED_AUTO_PICKUP_ITEM_IDS@.contains(entry_id)) by {
        if REFORGED_AUTO_PICKUP_ITEM_IDS@.contains(entry_id) {
            let k = choose|k: int| 0 <= k < 2 && REFORGED_AUTO_PICKUP_ITEM_IDS@[k] == entry_id;
        }
        if is_reforged_id {
            if entry_id == REFORGED_AUTO_PICKUP_ITEM_IDS@[0] {
                assert(REFORGED_AUTO_PICKUP_ITEM_IDS@[0] == entry_id);
            } else {
                assert(REFORGED_AUTO_PICKUP_ITEM_IDS@[1] == entry_id);
            }
        }
    }
    PickupDecision {
        log_seen: entry_id != last_logged,
        warn_missing_rune_piece: is_reforged_id && !listed,
        auto_interact: enabled && listed,
    }
}

/// The hook to install: its target and the pickup id list, and whether the
/// Rune Piece ids made it into the list.
pub struct AutoPickupInstall {
    pub target: u64,
    pub ids: Vec<i32>,
    pub has_reforged_ids: bool,
}

/// Prepares the auto-pickup hook at `ExecActionButton` (which must have been
/// found: the mod cannot work without it): builds the pickup id list,
/// with the Rune Piece ids when Reforged is loaded.
pub fn install_auto_pickup_hook(exec_action_button: Option<u64>, reforged_loaded: bool) -> (r: AutoPickupInstall)
    requires
        exec_action_button is Some,
    ensures
        r.target == exec_action_button->0,
        strictly_sorted(r.ids@),
        forall|x: i32| r.ids@.contains(x) <==> is_pickup_source(reforged_loaded, x),
        r.has_reforged_ids == forall|k: int| 0 <= k < 2 ==> r.ids@.contains(#[trigger] REFORGED_AUTO_PICKUP_ITEM_IDS@[k]),
{
    let target = match exec_action_button {
        Some(t) => t,
        None => 0,
    };
    let ids = pickup_ids(reforged_loaded);
    let a = sorted_contains(ids.as_slice(), REFORGED_AUTO_PICKUP_ITEM_IDS[0]);
    let b = sorted_contains(ids.as_slice(), REFORGED_AUTO_PICKUP_ITEM_IDS[1]);
    proof {
        assert(a && b <==> forall|k: int| 0 <= k < 2 ==> ids@.contains(#[trigger] REFORGED_AUTO_PICKUP_ITEM_IDS@[k])) by {
            if a && b {
                assert forall|k: int| 0 <= k < 2 implies ids@.contains(#[trigger] REFORGED_AUTO_PICKUP_ITEM_IDS@[k]) by {
                    if k == 0 {
                    } else {
                    }
                }
            }
        }
    }
    AutoPickupInstall { target, ids, has_reforged_ids: a && b }
}

} // verus!

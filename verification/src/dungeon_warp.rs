//! Fast travel from dungeons: which map rows gate fast travel behind an event
//! flag, and the rewrite of those rows to the always-on flag.

use vstd::prelude::*;

verus! {

/// Event flag 6001, always on.
pub const ALWAYS_ON_FAST_TRAVEL_FLAG: u32 = 6001;
/// Area id prefixes (`area_id / 1_000_000`) of small and interior dungeons.
pub const DUNGEON_AREA_PREFIXES: [u32; 10] = [30, 31, 32, 34, 35, 39, 40, 41, 42, 43];
/// How many unlocked area ids the report keeps as examples.
pub const SAMPLE_IDS: usize = 5;

pub open spec fn spec_is_dungeon_area(area_id: u32) -> bool {
    DUNGEON_AREA_PREFIXES@.contains((area_id / 1_000_000) as u32)
}

/// Whether an area is a small or interior dungeon.
pub fn is_dungeon_area(area_id: u32) -> (r: bool)
    ensures
        r == spec_is_dungeon_area(area_id),
{
    let p = area_id / 1_000_000;
    for i in 0..10
        invariant
            p == area_id / 1_000_000,
            forall|k: int| 0 <= k < i ==> DUNGEON_AREA_PREFIXES@[k] != p,
    {
        if DUNGEON_AREA_PREFIXES[i] == p {
            assert(DUNGEON_AREA_PREFIXES@[i as int] == p);
            return true;
        }
    }
    false
}

/// A row needs unlocking when it does not use the always-on flag and either
/// gates fast travel behind a flag or belongs to a dungeon.
pub open spec fn needs_unlock(area_id: u32, flag: u32) -> bool {
    flag != ALWAYS_ON_FAST_TRAVEL_FLAG && (flag != 0 || spec_is_dungeon_area(area_id))
}

/// One MapDefaultInfoParam row: its area id and fast-travel event flag.
#[derive(Clone, Copy, Debug, PartialEq, Eq, Structural)]
pub struct MapRow {
    pub area_id: u32,
    pub flag: u32,
}

/// What a pass unlocked: how many rows, and the first few area ids.
pub struct UnlockReport {
    pub unlocked: u32,
    pub samples: Vec<u32>,
}

/// The area ids of the rows among the first `k` that need unlocking.
pub open spec fn unlocked_ids(rows: Seq<MapRow>, k: int) -> Seq<u32>
    decreases k,
{
    if k <= 0 {
        Seq::empty()
    } else if needs_unlock(rows[k - 1].area_id, rows[k - 1].flag) {
        unlocked_ids(rows, k - 1).push(rows[k - 1].area_id)
    } else {
        unlocked_ids(rows, k - 1)
    }
}

proof fn lemma_unlocked_len(rows: Seq<MapRow>, k: int)
    requires
        0 <= k,
    ensures
        unlocked_ids(rows, k).len() <= k,
    decreases k,
{
    if k > 0 {
        lemma_unlocked_len(rows, k - 1);
    }
}

/// Points every row that needs unlocking at the always-on flag. Reports the
/// number of rows changed and up to five of their area ids.
pub fn unlock_rows(rows: &mut Vec<MapRow>) -> (r: UnlockReport)
    requires
        old(rows)@.len() <= u32::MAX,
    ensures
        final(rows)@.len() == old(rows)@.len(),
        forall|i: int|
            0 <= i < old(rows)@.len() ==> #[trigger] final(rows)@[i] == if needs_unlock(
                old(rows)@[i].area_id,
                old(rows)@[i].flag,
            ) {
                MapRow { area_id: old(rows)@[i].area_id, flag: ALWAYS_ON_FAST_TRAVEL_FLAG }
            } else {
                old(rows)@[i]
            },
        final(rows)@ == unlocked_rows(old(rows)@),
        r.unlocked == unlocked_ids(old(rows)@, old(rows)@.len() as int).len(),
        r.samples@ == unlocked_ids(old(rows)@, old(rows)@.len() as int).take(
            if unlocked_ids(old(rows)@, old(rows)@.len() as int).len() < SAMPLE_IDS {
                unlocked_ids(old(rows)@, old(rows)@.len() as int).len() as int
            } else {
                SAMPLE_IDS as int
            },
        ),
{
    let ghost orig = rows@;
    let n = rows.len();
    let mut unlocked: u32 = 0;
    let mut samples: Vec<u32> = Vec::new();
    for i in 0..n
        invariant
            n == orig.len(),
            n <= u32::MAX,
            rows@.len() == n,
            forall|k: int|
                0 <= k < i ==> #[trigger] rows@[k] == if needs_unlock(orig[k].area_id, orig[k].flag) {
                    MapRow { area_id: orig[k].area_id, flag: ALWAYS_ON_FAST_TRAVEL_FLAG }
                } else {
                    orig[k]
                },
            forall|k: int| i <= k < n ==> #[trigger] rows@[k] == orig[k],
            unlocked == unlocked_ids(orig, i as int).len(),
            samples@ == unlocked_ids(orig, i as int).take(
                if unlocked_ids(orig, i as int).len() < SAMPLE_IDS {
                    unlocked_ids(orig, i as int).len() as int
                } else {
                    SAMPLE_IDS as int
                },
            ),
    {
        proof {
            lemma_unlocked_len(orig, i as int);
        }
        let row = rows[i];
        let ghost ids = unlocked_ids(orig, i as int);
        if row.flag != ALWAYS_ON_FAST_TRAVEL_FLAG && (row.flag != 0 || is_dungeon_area(row.area_id)) {
            rows.set(i, MapRow { area_id: row.area_id, flag: ALWAYS_ON_FAST_TRAVEL_FLAG });
            unlocked = unlocked + 1;
            if samples.len() < SAMPLE_IDS {
                samples.push(row.area_id);
            }
            assert(unlocked_ids(orig, i + 1) == ids.push(row.area_id));
            assert(samples@ =~= unlocked_ids(orig, i + 1).take(
                if unlocked_ids(orig, i + 1).len() < SAMPLE_IDS {
                    unlocked_ids(orig, i + 1).len() as int
                } else {
                    SAMPLE_IDS as int
                },
            ));
        }
    }
    assert(rows@ =~= unlocked_rows(orig));
    UnlockReport { unlocked, samples }
}

/// The rows after one unlocking pass over `old`.
pub open spec fn unlocked_rows(old: Seq<MapRow>) -> Seq<MapRow> {
    Seq::new(
        old.len(),
        |i: int|
            if needs_unlock(old[i].area_id, old[i].flag) {
                MapRow { area_id: old[i].area_id, flag: ALWAYS_ON_FAST_TRAVEL_FLAG }
            } else {
                old[i]
            },
    )
}

proof fn lemma_none_unlocked(rows: Seq<MapRow>, k: int)
    requires
        0 <= k <= rows.len(),
        forall|i: int| 0 <= i < rows.len() ==> !needs_unlock(#[trigger] rows[i].area_id, rows[i].flag),
    ensures
        unlocked_ids(rows, k).len() == 0,
    decreases k,
{
    if k > 0 {
        lemma_none_unlocked(rows, k - 1);
    }
}

/// Unlocking is idempotent: after one pass no row needs unlocking, so a
/// second pass leaves every row as it is and reports nothing unlocked.
pub proof fn law_unlock_idempotent(old: Seq<MapRow>)
    ensures
        unlocked_rows(unlocked_rows(old)) == unlocked_rows(old),
        unlocked_ids(unlocked_rows(old), old.len() as int).len() == 0,
{
    let once = unlocked_rows(old);
    assert forall|i: int| 0 <= i < once.len() implies !needs_unlock(#[trigger] once[i].area_id, once[i].flag) by {
    }
    assert(unlocked_rows(once) =~= once);
    lemma_none_unlocked(once, old.len() as int);
}

/// The dungeon areas are exactly the area ids whose millions prefix is 30,
/// 31, 32, 34, 35, 39, 40, 41, 42 or 43 (catacombs, caves, tunnels, ...);
/// a pass unlocks a dungeon row with no flag to the always-on flag 6001,
/// leaves an open-world row with no flag alone, and moves every row with a
/// flag other than 6001 to 6001.
pub proof fn law_dungeon_rows_unlock(rows: Seq<MapRow>, i: int)
    requires
        0 <= i < rows.len(),
    ensures
        ({
            let p = rows[i].area_id / 1_000_000;
            spec_is_dungeon_area(rows[i].area_id) == (p == 30 || p == 31 || p == 32 || p == 34 || p == 35 || p
                == 39 || p == 40 || p == 41 || p == 42 || p == 43)
        }),
        unlocked_rows(rows)[i].area_id == rows[i].area_id,
        unlocked_rows(rows)[i].flag == if rows[i].flag != 0 {
            6001u32
        } else if spec_is_dungeon_area(rows[i].area_id) {
            6001u32
        } else {
            0u32
        },
{
    let t = DUNGEON_AREA_PREFIXES@;
    assert(t[0] == 30 && t[1] == 31 && t[2] == 32 && t[3] == 34 && t[4] == 35);
    assert(t[5] == 39 && t[6] == 40 && t[7] == 41 && t[8] == 42 && t[9] == 43);
    let p = rows[i].area_id / 1_000_000;
    if t.contains(p as u32) {
        let k = choose|k: int| 0 <= k < t.len() && t[k] == p as u32;
        assert(k == 0 || k == 1 || k == 2 || k == 3 || k == 4 || k == 5 || k == 6 || k == 7 || k == 8 || k == 9);
    }
    if p == 30 { assert(t[0] == p as u32); }
    if p == 31 { assert(t[1] == p as u32); }
    if p == 32 { assert(t[2] == p as u32); }
    if p == 34 { assert(t[3] == p as u32); }
    if p == 35 { assert(t[4] == p as u32); }
    if p == 39 { assert(t[5] == p as u32); }
    if p == 40 { assert(t[6] == p as u32); }
    if p == 41 { assert(t[7] == p as u32); }
    if p == 42 { assert(t[8] == p as u32); }
    if p == 43 { assert(t[9] == p as u32); }
}

} // verus!

//! The SpEffectParam rows of the posture effects, served from mod-owned
//! memory: the embedded blob is cut into fixed-size rows, and the getter's
//! detour answers the ids of the sorted id table with the matching row while
//! every other id falls through to the game.

use vstd::prelude::*;

verus! {

/// Size of one `SP_EFFECT_PARAM_ST` row.
pub const ROW_SIZE: usize = 912;

/// Offset from the getter's deep tail anchor back to its entry.
pub const GSP_TAIL_OFFSET: u64 = 104;

/// One param row, copied verbatim.
pub struct SpeffectRow(pub [u8; 912]);

/// Copies one row out of `chunk`.
pub fn row_from_chunk(chunk: &[u8]) -> (r: SpeffectRow)
    requires
        chunk@.len() == ROW_SIZE,
    ensures
        r.0@ == chunk@,
{
    let mut row = [0u8; 912];
    for k in 0..ROW_SIZE
        invariant
            chunk@.len() == ROW_SIZE,
            row@.len() == ROW_SIZE,
            forall|j: int| 0 <= j < k ==> row@[j] == chunk@[j],
    {
        row[k] = chunk[k];
    }
    assert(row@ =~= chunk@);
    SpeffectRow(row)
}

/// Row `i` of a blob.
pub open spec fn blob_row(blob: Seq<u8>, i: int) -> Seq<u8> {
    blob.subrange(i * (ROW_SIZE as int), (i + 1) * (ROW_SIZE as int))
}

/// Cuts `blob` into whole rows, in order; a trailing partial row is dropped.
pub fn split_rows(blob: &[u8]) -> (r: Vec<SpeffectRow>)
    ensures
        r@.len() == blob@.len() / (ROW_SIZE as nat),
        forall|i: int| 0 <= i < r@.len() ==> #[trigger] r@[i].0@ == blob_row(blob@, i),
{
    let n = blob.len() / ROW_SIZE;
    let mut out: Vec<SpeffectRow> = Vec::new();
    for i in 0..n
        invariant
            n == blob@.len() / (ROW_SIZE as nat),
            blob@.len() <= usize::MAX,
            out@.len() == i,
            forall|k: int| 0 <= k < i ==> #[trigger] out@[k].0@ == blob_row(blob@, k),
    {
        assert((i + 1) * 912 <= blob@.len()) by (nonlinear_arith)
            requires
                i < n,
                n == blob@.len() / 912,
        ;
        let start = i * 912;
        let mut chunk: Vec<u8> = Vec::new();
        for k in 0..ROW_SIZE
            invariant
                start == i * 912,
                start + 912 <= blob@.len(),
                blob@.len() <= usize::MAX,
                chunk@.len() == k,
                forall|j: int| 0 <= j < k ==> chunk@[j] == blob@[start + j],
        {
            chunk.push(blob[start + k]);
        }
        assert(chunk@ =~= blob_row(blob@, i as int));
        out.push(row_from_chunk(chunk.as_slice()));
    }
    out
}

/// `ids` is strictly increasing.
pub open spec fn strictly_sorted(ids: Seq<u32>) -> bool {
    forall|a: int, b: int| 0 <= a < b < ids.len() ==> ids[a] < ids[b]
}

/// The position of `id` in a strictly sorted id table, if it is there.
/// Negative ids are never ours.
pub fn find_index(ids: &[u32], id: i32) -> (r: Option<usize>)
    requires
        strictly_sorted(ids@),
    ensures
        r matches Some(k) ==> k < ids@.len() && id >= 0 && ids@[k as int] == id,
        r is None ==> id < 0 || forall|k: int| 0 <= k < ids@.len() ==> ids@[k] != id,
{
    if id < 0 {
        return None;
    }
    let want = id as u32;
    let mut lo: usize = 0;
    let mut hi: usize = ids.len();
    while lo < hi
        invariant
            strictly_sorted(ids@),
            want == id,
            0 <= lo <= hi <= ids@.len(),
            forall|k: int| 0 <= k < lo ==> ids@[k] < want,
            forall|k: int| hi <= k < ids@.len() ==> ids@[k] > want,
        decreases hi - lo,
    {
        let mid = lo + (hi - lo) / 2;
        let v = ids[mid];
        if v == want {
            return Some(mid);
        } else if v < want {
            lo = mid + 1;
        } else {
            hi = mid;
        }
    }
    None
}

/// The getter's entry: the prologue match when there is one, else the entry
/// recovered from the deep tail anchor (which entry patches never touch).
pub fn locate_entry(prologue: Option<u64>, tail: Option<u64>) -> (r: Option<u64>)
    ensures
        r == (match prologue {
            Some(e) => Some(e),
            None => match tail {
                Some(t) => Some(t.wrapping_sub(GSP_TAIL_OFFSET)),
                None => None,
            },
        }),
{
    match prologue {
        Some(e) => Some(e),
        None => match tail {
            Some(t) => Some(t.wrapping_sub(GSP_TAIL_OFFSET)),
            None => None,
        },
    }
}

} // verus!

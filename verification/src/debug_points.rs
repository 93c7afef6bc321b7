//! Recording custom map points from inside the game: each record is labelled
//! `"{label} {n}"`, `n` counting the records of the session, and carries the
//! `WorldMapPoint` cell of the player's block id (`mAA_BB_CC_DD`: area, block,
//! region, index bytes, from the most significant down).

use vstd::prelude::*;
use crate::text::{decimal, decimal_chars, push_all, str_chars, string_from_chars};

verus! {

/// Byte `k` of a block id, counting from the least significant.
pub open spec fn block_byte(id: i32, k: int) -> u8 {
    (((id as u32) >> ((8 * k) as u32)) & 0xff) as u8
}

/// The `(area_no, grid_x_no, grid_z_no)` of a `WorldMapPoint` row for a
/// block id: its area, block and region bytes.
pub fn block_to_grid(id: i32) -> (r: (u8, u8, u8))
    ensures
        r == (block_byte(id, 3), block_byte(id, 2), block_byte(id, 1)),
{
    let u = id as u32;
    let area = ((u >> 24u32) & 0xff) as u8;
    let block = ((u >> 16u32) & 0xff) as u8;
    let region = ((u >> 8u32) & 0xff) as u8;
    (area, block, region)
}

/// A byte in decimal, padded with a zero to two digits.
pub open spec fn pad2(b: u8) -> Seq<char> {
    if b < 10 {
        seq!['0'] + decimal(b as nat)
    } else {
        decimal(b as nat)
    }
}

/// A block id's text: `m{area}_{block}_{region}_{index}`, each two digits at least.
pub open spec fn block_id_text(id: i32) -> Seq<char> {
    seq!['m'] + pad2(block_byte(id, 3)) + seq!['_'] + pad2(block_byte(id, 2)) + seq!['_'] + pad2(
        block_byte(id, 1),
    ) + seq!['_'] + pad2(block_byte(id, 0))
}

fn push_pad2(out: &mut Vec<char>, b: u8)
    ensures
        final(out)@ == old(out)@ + pad2(b),
{
    if b < 10 {
        out.push('0');
    }
    let d = decimal_chars(b as u64);
    let ghost mid = out@;
    push_all(out, d.as_slice());
    proof {
        if b < 10 {
            assert(mid == old(out)@ + seq!['0']);
        }
    }
}

/// Formats a block id as `mAA_BB_CC_DD`.
pub fn format_block_id(id: i32) -> (r: String)
    ensures
        r@ == block_id_text(id),
{
    let u = id as u32;
    let mut out: Vec<char> = Vec::new();
    out.push('m');
    push_pad2(&mut out, ((u >> 24u32) & 0xff) as u8);
    out.push('_');
    push_pad2(&mut out, ((u >> 16u32) & 0xff) as u8);
    out.push('_');
    push_pad2(&mut out, ((u >> 8u32) & 0xff) as u8);
    out.push('_');
    push_pad2(&mut out, (u & 0xff) as u8);
    proof {
        assert(block_byte(id, 0) == ((u >> 0u32) & 0xff) as u8);
        assert((u >> 0u32) == u) by (bit_vector);
    }
    assert(out@ =~= block_id_text(id));
    string_from_chars(out.as_slice())
}

/// The note of the `n`th record of a label: `"{label} {n}"`.
pub open spec fn point_note(label: Seq<char>, n: nat) -> Seq<char> {
    label + seq![' '] + decimal(n)
}

/// The session's record counter.
pub struct PointSession {
    pub count: usize,
}

impl PointSession {
    /// A session with no records yet.
    pub fn new() -> (r: Self)
        ensures
            r.count == 0,
    {
        PointSession { count: 0 }
    }

    /// Counts one more record and returns its note.
    pub fn next_note(&mut self, label: &str) -> (r: String)
        requires
            old(self).count < usize::MAX,
        ensures
            final(self).count == old(self).count + 1,
            r@ == point_note(label@, (old(self).count + 1) as nat),
    {
        self.count = self.count + 1;
        let mut out = str_chars(label);
        out.push(' ');
        let d = decimal_chars(self.count as u64);
        push_all(&mut out, d.as_slice());
        assert(out@ =~= point_note(label@, self.count as nat));
        string_from_chars(out.as_slice())
    }
}

} // verus!

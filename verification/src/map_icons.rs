//! Custom world-map icons: the WorldMapPoint param block is rebuilt with the
//! vanilla rows, extra rows cloned from a template grace and pointed at the
//! custom positions, and an id table that also resolves the new rows.
//!
//! A block is viewed from 16 bytes before its base: `[0, 16)` is the header
//! (`u32` aligned data size at 0, `u32` row count at 4), the base is at 16,
//! the stride flags at base + 0x2d / 0x2e, the row offset table starts at
//! base + `table_off`, and the id table (`{u32 id; u32 row index}` entries)
//! at base + align16(data size).

use vstd::prelude::*;
use crate::bytes::{from_le4, from_le8, i32_le, le2, le4, le8, read_u32, read_u64, u16_to_le, u32_to_le, u64_to_le, i32_to_le, lemma_from_le4_bound, lemma_le4_roundtrip};
use crate::text::push_all_bytes;
use crate::esd::MSGBND_PLACE_NAME;
use crate::hooks::{rip_relative_target, rip_target};
use crate::messages::{message_buffer, MessageIdAllocator, MessageRegistry};

verus! {

/// Size of one WORLD_MAP_POINT_PARAM_ST row.
pub const ROW_SIZE: usize = 0x100;
/// Icon id of every custom point (a church marker).
pub const CUSTOM_ICON_ID: u16 = 3;
/// Id of the vanilla Church of Elleh grace, the template of custom rows.
pub const TEMPLATE_CHURCH_OF_ELLEH: u32 = 61_423_600;

/// A custom map icon: its world cell, its position (the bit patterns of the
/// three `f32` coordinates) and the PlaceName message id of its label.
#[derive(Clone, Copy, Debug)]
pub struct CustomPoint {
    pub area_no: u8,
    pub grid_x_no: u8,
    pub grid_z_no: u8,
    pub pos_x_bits: u32,
    pub pos_y_bits: u32,
    pub pos_z_bits: u32,
    pub msg_id: i32,
}

/// How the row offset table is laid out: where entry 0 sits (from the base),
/// the distance between entries, and the entry width (4 or 8 bytes).
#[derive(Clone, Copy, Debug, PartialEq, Eq, Structural)]
pub struct StrideMode {
    pub table_off: usize,
    pub stride: usize,
    pub size: usize,
}

/// The offset-table mode selected by the flag bytes at base + 0x2d and
/// base + 0x2e: kind 2 has 4-byte entries at 0x34, kind 3 at 0x44; otherwise
/// 8-byte entries at 0x48 every 24 bytes when the high flag bit and bit 1 of
/// the second flag are set, else 4-byte entries at 0x44 every 12 bytes.
pub open spec fn spec_stride_mode(flag: u8, f2: u8) -> StrideMode {
    let c = flag % 128;
    if c == 2 {
        StrideMode { table_off: 0x34, stride: 12, size: 4 }
    } else if c == 3 {
        StrideMode { table_off: 0x44, stride: 12, size: 4 }
    } else if flag >= 0x80 && (f2 / 2) % 2 == 1 {
        StrideMode { table_off: 0x48, stride: 24, size: 8 }
    } else {
        StrideMode { table_off: 0x44, stride: 12, size: 4 }
    }
}

pub fn stride_mode(flag: u8, f2: u8) -> (r: StrideMode)
    ensures
        r == spec_stride_mode(flag, f2),
{
    let c = flag & 0x7f;
    assert(flag & 0x7f == flag % 128) by (bit_vector);
    let b = f2 & 2;
    assert((f2 & 2 != 0) == ((f2 / 2) % 2 == 1)) by (bit_vector);
    if c == 2 {
        StrideMode { table_off: 0x34, stride: 12, size: 4 }
    } else if c == 3 {
        StrideMode { table_off: 0x44, stride: 12, size: 4 }
    } else if flag >= 0x80 && b != 0 {
        StrideMode { table_off: 0x48, stride: 24, size: 8 }
    } else {
        StrideMode { table_off: 0x44, stride: 12, size: 4 }
    }
}

/// `v` rounded up to a multiple of 16.
pub open spec fn spec_align16(v: int) -> int {
    ((v + 15) / 16) * 16
}

pub fn align16(v: usize) -> (r: usize)
    requires
        v + 15 <= usize::MAX,
    ensures
        r == spec_align16(v as int),
{
    let x = v + 15;
    let r = x & !15usize;
    assert(x & !15usize == x - x % 16) by (bit_vector);
    r
}

/// `b` written over `s` at `off`.
pub open spec fn put(s: Seq<u8>, off: int, b: Seq<u8>) -> Seq<u8> {
    s.take(off) + b + s.skip(off + b.len())
}

/// A template row turned into a custom point: its cell and position, the
/// church icon, the no-text flag bit, the PlaceName text type and the label
/// message id.
pub open spec fn point_row(row: Seq<u8>, p: CustomPoint) -> Seq<u8> {
    let r1 = row.update(0x20, p.area_no).update(0x21, p.grid_x_no).update(0x22, p.grid_z_no);
    let r2 = put(put(put(r1, 0x24, le4(p.pos_x_bits as nat)), 0x28, le4(p.pos_y_bits as nat)), 0x2c, le4(p.pos_z_bits as nat));
    let r3 = put(r2, 0x0c, le2(CUSTOM_ICON_ID as nat));
    let r4 = r3.update(0x10, r3[0x10] | 4u8).update(0x90, 0u8);
    put(r4, 0x30, i32_le(p.msg_id))
}

/// Writes `b` over `row` at `off`.
fn write_bytes(row: &mut Vec<u8>, off: usize, b: &[u8])
    requires
        off + b.len() <= old(row).len(),
    ensures
        final(row)@ == put(old(row)@, off as int, b@),
{
    let ghost orig = row@;
    for k in 0..b.len()
        invariant
            off + b.len() <= orig.len(),
            orig.len() == row.len(),
            row@.len() == orig.len(),
            row@ == orig.take(off as int) + b@.take(k as int) + orig.skip(off + k),
    {
        row.set(off + k, b[k]);
        assert(row@ =~= orig.take(off as int) + b@.take(k + 1) + orig.skip(off + k + 1));
    }
    assert(b@.take(b.len() as int) =~= b@);
}

/// Turns a copy of the template row into the custom point `p`.
pub fn apply_point(row: &mut Vec<u8>, p: &CustomPoint)
    requires
        old(row)@.len() == ROW_SIZE,
    ensures
        final(row)@ == point_row(old(row)@, *p),
{
    row.set(0x20, p.area_no);
    row.set(0x21, p.grid_x_no);
    row.set(0x22, p.grid_z_no);
    write_bytes(row, 0x24, &u32_to_le(p.pos_x_bits));
    write_bytes(row, 0x28, &u32_to_le(p.pos_y_bits));
    write_bytes(row, 0x2c, &u32_to_le(p.pos_z_bits));
    write_bytes(row, 0x0c, &u16_to_le(CUSTOM_ICON_ID));
    let f = row[0x10] | 4;
    row.set(0x10, f);
    row.set(0x90, 0);
    write_bytes(row, 0x30, &i32_to_le(p.msg_id));
}

/// The little-endian `u32` at `off`.
pub open spec fn u32_at(s: Seq<u8>, off: int) -> nat {
    from_le4(s.subrange(off, off + 4))
}

/// The little-endian `u64` at `off`.
pub open spec fn u64_at(s: Seq<u8>, off: int) -> nat {
    from_le8(s.subrange(off, off + 8))
}

/// The offset-table mode of a source block.
pub open spec fn src_mode(s: Seq<u8>) -> StrideMode {
    spec_stride_mode(s[16int + 0x2d], s[16int + 0x2e])
}

/// The row count of a source block.
pub open spec fn src_count(s: Seq<u8>) -> nat {
    u32_at(s, 4)
}

/// Where the id table of a source block starts, from its base: the data size
/// rounded up to 16.
pub open spec fn src_id_table(s: Seq<u8>) -> int {
    spec_align16(u32_at(s, 0) as int)
}

/// Position of offset-table entry `i` in the block view.
pub open spec fn entry_pos(m: StrideMode, i: int) -> int {
    16 + m.table_off + i * m.stride
}

/// The base-relative offset of row `i`, read from the offset table.
pub open spec fn row_offset(s: Seq<u8>, m: StrideMode, i: int) -> nat {
    if m.size == 4 {
        u32_at(s, entry_pos(m, i))
    } else {
        u64_at(s, entry_pos(m, i))
    }
}

/// The bytes of row `i` of a source block.
pub open spec fn src_row(s: Seq<u8>, m: StrideMode, i: int) -> Seq<u8> {
    let o: int = 16 + row_offset(s, m, i) as int;
    s.subrange(o, o + ROW_SIZE)
}

/// Offset-table entry `i` and the row it points at lie inside the block.
pub open spec fn entry_readable(s: Seq<u8>, m: StrideMode, i: int) -> bool {
    &&& entry_pos(m, i) + m.size <= s.len()
    &&& 16 + row_offset(s, m, i) + ROW_SIZE <= s.len()
}

/// The id of id-table entry `i`.
pub open spec fn id_at(s: Seq<u8>, tab: int, i: int) -> nat {
    u32_at(s, 16 + tab + i * 8)
}

/// The row index of id-table entry `i`.
pub open spec fn index_at(s: Seq<u8>, tab: int, i: int) -> nat {
    u32_at(s, 16 + tab + i * 8 + 4)
}

/// The row index the id table gives for `want` (its first entry), if any.
pub open spec fn spec_find_row_index(s: Seq<u8>, tab: int, count: int, want: u32) -> Option<nat> {
    if exists|i: int| 0 <= i < count && id_at(s, tab, i) == want {
        let i = choose|i: int|
            0 <= i < count && id_at(s, tab, i) == want && forall|k: int| 0 <= k < i ==> id_at(s, tab, k) != want;
        Some(index_at(s, tab, i))
    } else {
        None
    }
}

/// The row custom rows are cloned from: the Church of Elleh grace, or row 0
/// when the id table lacks it.
pub open spec fn template_index(s: Seq<u8>) -> nat {
    match spec_find_row_index(s, src_id_table(s), src_count(s) as int, TEMPLATE_CHURCH_OF_ELLEH) {
        Some(r) => r,
        None => 0,
    }
}

/// The largest id among the first `n` id-table entries (0 for none).
pub open spec fn max_id(s: Seq<u8>, tab: int, n: int) -> nat
    decreases n,
{
    if n <= 0 {
        0
    } else {
        let m = max_id(s, tab, n - 1);
        let v = id_at(s, tab, n - 1);
        if v > m {
            v
        } else {
            m
        }
    }
}

/// Every read the rebuild makes lies inside the source block.
pub open spec fn source_readable(s: Seq<u8>) -> bool {
    &&& s.len() >= 16 + 0x2f
    &&& 16 + src_mode(s).table_off <= s.len()
    &&& (src_count(s) > 0 && src_id_table(s) > 0) ==> {
        &&& 16 + src_id_table(s) + src_count(s) * 8 <= s.len()
        &&& forall|i: int| 0 <= i < src_count(s) ==> #[trigger] entry_readable(s, src_mode(s), i)
        &&& entry_readable(s, src_mode(s), template_index(s) as int)
    }
}

/// `n` zero bytes.
pub open spec fn zeros(n: int) -> Seq<u8> {
    Seq::new(n as nat, |i: int| 0u8)
}

/// One offset-table entry holding `v`, padded with zeros to the stride.
pub open spec fn entry_bytes(m: StrideMode, v: nat) -> Seq<u8> {
    if m.size == 4 {
        le4(v % 0x1_0000_0000) + zeros(m.stride - 4)
    } else {
        le8(v) + zeros(m.stride - 8)
    }
}

/// The first `k` entries of the rebuilt offset table: row `i` at
/// `rows_start + i * ROW_SIZE`.
pub open spec fn table_bytes(m: StrideMode, rows_start: int, k: int) -> Seq<u8>
    decreases k,
{
    if k <= 0 {
        Seq::empty()
    } else {
        table_bytes(m, rows_start, k - 1) + entry_bytes(m, (rows_start + (k - 1) * ROW_SIZE) as nat)
    }
}

/// The first `k` vanilla rows, in index order.
pub open spec fn vanilla_rows(s: Seq<u8>, m: StrideMode, k: int) -> Seq<u8>
    decreases k,
{
    if k <= 0 {
        Seq::empty()
    } else {
        vanilla_rows(s, m, k - 1) + src_row(s, m, k - 1)
    }
}

/// The first `k` custom rows.
pub open spec fn custom_rows(t: Seq<u8>, pts: Seq<CustomPoint>, k: int) -> Seq<u8>
    decreases k,
{
    if k <= 0 {
        Seq::empty()
    } else {
        custom_rows(t, pts, k - 1) + point_row(t, pts[k - 1])
    }
}

/// The first `k` custom id-table entries: ids after the largest vanilla id,
/// rows after the vanilla rows.
pub open spec fn custom_ids(max: nat, n: nat, k: int) -> Seq<u8>
    decreases k,
{
    if k <= 0 {
        Seq::empty()
    } else {
        custom_ids(max, n, k - 1) + le4(((max + k) % 0x1_0000_0000) as nat) + le4(
            ((n + k - 1) % 0x1_0000_0000) as nat,
        )
    }
}

pub open spec fn new_count(s: Seq<u8>, pts: Seq<CustomPoint>) -> nat {
    src_count(s) + pts.len()
}

pub open spec fn rows_start(s: Seq<u8>, pts: Seq<CustomPoint>) -> int {
    src_mode(s).table_off + new_count(s, pts) * src_mode(s).stride
}

pub open spec fn new_data_size(s: Seq<u8>, pts: Seq<CustomPoint>) -> int {
    rows_start(s, pts) + new_count(s, pts) * ROW_SIZE
}

/// Size of the rebuilt block view.
pub open spec fn built_size(s: Seq<u8>, pts: Seq<CustomPoint>) -> int {
    16 + spec_align16(new_data_size(s, pts)) + new_count(s, pts) * 8
}

/// The rebuilt block: the header with the new data size and count, the
/// control zone with the new count word, the rebuilt offset table, the
/// vanilla rows, the custom rows, zero padding to 16, the vanilla id table
/// and the custom id entries.
#[verifier::opaque]
pub open spec fn built_block(s: Seq<u8>, pts: Seq<CustomPoint>) -> Seq<u8> {
    let m = src_mode(s);
    let n = src_count(s);
    let nc = new_count(s, pts);
    let d = new_data_size(s, pts);
    let tab = src_id_table(s);
    le4((d % 0x1_0000_0000) as nat) + le4(nc % 0x1_0000_0000) + s.subrange(8, 16) + s.subrange(16, 26)
        + le2(nc % 0x1_0000) + s.subrange(28, 16 + m.table_off) + table_bytes(m, rows_start(s, pts), nc as int)
        + vanilla_rows(s, m, n as int) + custom_rows(src_row(s, m, template_index(s) as int), pts, pts.len() as int)
        + zeros(spec_align16(d) - d) + s.subrange(16 + tab, 16 + tab + n * 8) + custom_ids(
        max_id(s, tab, n as int),
        n,
        pts.len() as int,
    )
}

/// A rebuilt block and its combined row count.
pub struct BuiltBlock {
    pub bytes: Vec<u8>,
    pub count: u32,
}

/// Appends `src[from..to]`.
fn push_range(out: &mut Vec<u8>, src: &[u8], from: usize, to: usize)
    requires
        from <= to <= src.len(),
    ensures
        final(out)@ == old(out)@ + src@.subrange(from as int, to as int),
{
    let ghost start = out@;
    let mut i = from;
    while i < to
        invariant
            from <= i <= to <= src.len(),
            out@ == start + src@.subrange(from as int, i as int),
        decreases to - i,
    {
        out.push(src[i]);
        i = i + 1;
        assert(out@ =~= start + src@.subrange(from as int, i as int));
    }
}

/// Appends `n` zero bytes.
fn push_zeros(out: &mut Vec<u8>, n: usize)
    ensures
        final(out)@ == old(out)@ + zeros(n as int),
{
    let ghost start = out@;
    for i in 0..n
        invariant
            out@ == start + zeros(i as int),
    {
        out.push(0);
        assert(out@ =~= start + zeros(i + 1));
    }
}

proof fn lemma_find_first(s: Seq<u8>, tab: int, count: int, want: u32, i: int)
    requires
        0 <= i < count,
        id_at(s, tab, i) == want,
        forall|k: int| 0 <= k < i ==> id_at(s, tab, k) != want,
    ensures
        spec_find_row_index(s, tab, count, want) == Some(index_at(s, tab, i)),
{
    assert(exists|j: int| 0 <= j < count && id_at(s, tab, j) == want);
    let j = choose|j: int|
        0 <= j < count && id_at(s, tab, j) == want && forall|k: int| 0 <= k < j ==> id_at(s, tab, k) != want;
    if j < i {
        assert(id_at(s, tab, j) != want);
    }
    if i < j {
        assert(id_at(s, tab, i) != want);
    }
}

/// The id table's row index for `want`: its first entry's, if any.
pub fn find_row_index(src: &[u8], tab: usize, count: usize, want: u32) -> (r: Option<u32>)
    requires
        16 + tab + count * 8 <= src.len(),
    ensures
        match r {
            Some(x) => spec_find_row_index(src@, tab as int, count as int, want) == Some(x as nat),
            None => spec_find_row_index(src@, tab as int, count as int, want) is None,
        },
{
    for i in 0..count
        invariant
            16 + tab + count * 8 <= src.len(),
            forall|k: int| 0 <= k < i ==> id_at(src@, tab as int, k) != want,
    {
        assert(i * 8 + 8 <= count * 8) by (nonlinear_arith)
            requires i < count;
        let id = read_u32(src, 16 + tab + i * 8);
        if id == want {
            let row = read_u32(src, 16 + tab + i * 8 + 4);
            proof {
                lemma_find_first(src@, tab as int, count as int, want, i as int);
            }
            return Some(row);
        }
    }
    None
}

/// The base-relative offset of row `i`.
fn read_row_offset(src: &[u8], m: StrideMode, i: usize) -> (r: usize)
    requires
        m.size == 4 || m.size == 8,
        entry_readable(src@, m, i as int),
    ensures
        r == row_offset(src@, m, i as int),
{
    assert(src@.len() == src.len());
    let p = 16 + m.table_off + i * m.stride;
    if m.size == 4 {
        read_u32(src, p) as usize
    } else {
        read_u64(src, p) as usize
    }
}

/// The offset-table modes: 4-byte entries every 12 bytes or 8-byte entries
/// every 24, starting at least 0x34 past the base.
pub proof fn lemma_stride_mode(flag: u8, f2: u8)
    ensures
        spec_stride_mode(flag, f2).size == 4 ==> spec_stride_mode(flag, f2).stride == 12,
        spec_stride_mode(flag, f2).size == 8 ==> spec_stride_mode(flag, f2).stride == 24,
        spec_stride_mode(flag, f2).size == 4 || spec_stride_mode(flag, f2).size == 8,
        0x34 <= spec_stride_mode(flag, f2).table_off <= 0x48,
{
}

/// Rebuilds the WorldMapPoint block viewed by `src` with `points` appended as
/// custom rows: the result is the vanilla structure, extended so that both
/// the map enumeration and the per-id lookup see every row. Returns `None`
/// when the source block has no rows or no data.
#[verifier::spinoff_prover]
#[verifier::rlimit(40)]
pub fn build_block(src: &[u8], points: &[CustomPoint]) -> (r: Option<BuiltBlock>)
    requires
        source_readable(src@),
        u32_at(src@, 0) + 15 <= usize::MAX,
        built_size(src@, points@) <= usize::MAX,
        points@.len() < 0xFFFF_FFFF,
    ensures
        match r {
            None => src_count(src@) == 0 || src_id_table(src@) == 0,
            Some(b) => {
                &&& src_count(src@) > 0
                &&& src_id_table(src@) > 0
                &&& b.bytes@ == built_block(src@, points@)
                &&& b.count == new_count(src@, points@) % 0x1_0000_0000
            },
        },
{
    let ghost s = src@;
    assert(s.len() == src.len());
    let m = stride_mode(src[16 + 0x2d], src[16 + 0x2e]);
    proof {
        lemma_stride_mode(s[16int + 0x2d], s[16int + 0x2e]);
    }
    let data_size = read_u32(src, 0) as usize;
    let n = read_u32(src, 4) as usize;
    let tab = align16(data_size);
    if n == 0 || tab == 0 {
        return None;
    }
    let c = points.len();
    let nc = n + c;
    let ghost d = new_data_size(s, points@);
    proof {
        assert(nc * m.stride <= nc * 24) by (nonlinear_arith)
            requires m.stride <= 24;
        assert(0 <= n * 8 <= nc * 8) by (nonlinear_arith)
            requires n <= nc;
        assert(d + 15 <= built_size(s, points@));
    }
    let table_len = nc * m.stride;
    let start = m.table_off + table_len;
    let data = start + nc * ROW_SIZE;
    assert(data == d);
    let data_al = align16(data);
    let mut out: Vec<u8> = Vec::new();
    push_all_bytes(&mut out, &u32_to_le((data as u64 % 0x1_0000_0000) as u32));
    push_all_bytes(&mut out, &u32_to_le((nc as u64 % 0x1_0000_0000) as u32));
    push_range(&mut out, src, 8, 16);
    push_range(&mut out, src, 16, 26);
    push_all_bytes(&mut out, &u16_to_le((nc % 0x1_0000) as u16));
    push_range(&mut out, src, 28, 16 + m.table_off);
    let ghost p1 = out@;
    for i in 0..nc
        invariant
            m == src_mode(s),
            m.size == 4 ==> m.stride == 12,
            m.size == 8 ==> m.stride == 24,
            m.size == 4 || m.size == 8,
            start == rows_start(s, points@),
            start + nc * ROW_SIZE <= usize::MAX,
            out@ == p1 + table_bytes(m, start as int, i as int),
    {
        assert(i * ROW_SIZE <= nc * ROW_SIZE) by (nonlinear_arith)
            requires i <= nc;
        let v = start + i * ROW_SIZE;
        let ghost before = out@;
        if m.size == 4 {
            push_all_bytes(&mut out, &u32_to_le((v as u64 % 0x1_0000_0000) as u32));
            push_zeros(&mut out, m.stride - 4);
        } else {
            push_all_bytes(&mut out, &u64_to_le(v as u64));
            push_zeros(&mut out, m.stride - 8);
        }
        assert(out@ =~= p1 + table_bytes(m, start as int, i + 1));
    }
    let ghost p2 = out@;
    for i in 0..n
        invariant
            s == src@,
            s.len() == src.len(),
            m == src_mode(s),
            m.size == 4 || m.size == 8,
            n == src_count(s),
            forall|k: int| 0 <= k < src_count(s) ==> #[trigger] entry_readable(s, src_mode(s), k),
            out@ == p2 + vanilla_rows(s, m, i as int),
    {
        assert(entry_readable(s, src_mode(s), i as int));
        let o = read_row_offset(src, m, i);
        push_range(&mut out, src, 16 + o, 16 + o + ROW_SIZE);
    }
    let t = match find_row_index(src, tab, n, TEMPLATE_CHURCH_OF_ELLEH) {
        Some(x) => x as usize,
        None => 0,
    };
    assert(t == template_index(s));
    let to = read_row_offset(src, m, t);
    let mut template: Vec<u8> = Vec::new();
    push_range(&mut template, src, 16 + to, 16 + to + ROW_SIZE);
    let ghost p3 = out@;
    for j in 0..c
        invariant
            c == points@.len(),
            template@.len() == ROW_SIZE,
            out@ == p3 + custom_rows(template@, points@, j as int),
    {
        let mut row = vstd::slice::slice_to_vec(template.as_slice());
        apply_point(&mut row, &points[j]);
        push_all_bytes(&mut out, row.as_slice());
    }
    push_zeros(&mut out, data_al - data);
    push_range(&mut out, src, 16 + tab, 16 + tab + n * 8);
    let mut max: u32 = 0;
    for i in 0..n
        invariant
            s == src@,
            16 + tab + n * 8 <= src.len(),
            max as nat == max_id(s, tab as int, i as int),
    {
        assert(i * 8 + 8 <= n * 8) by (nonlinear_arith)
            requires i < n;
        let v = read_u32(src, 16 + tab + i * 8);
        if v > max {
            max = v;
        }
    }
    let ghost p4 = out@;
    for j in 0..c
        invariant
            n < 0x1_0000_0000,
            c < 0xFFFF_FFFF,
            out@ == p4 + custom_ids(max as nat, n as nat, j as int),
    {
        let id = ((max as u64 + 1 + j as u64) % 0x1_0000_0000) as u32;
        let ri = ((n as u64 + j as u64) % 0x1_0000_0000) as u32;
        push_all_bytes(&mut out, &u32_to_le(id));
        push_all_bytes(&mut out, &u32_to_le(ri));
        assert(out@ =~= p4 + custom_ids(max as nat, n as nat, j + 1));
    }
    proof {
        reveal(built_block);
    }
    assert(out@ =~= built_block(s, points@));
    Some(BuiltBlock { bytes: out, count: (nc as u64 % 0x1_0000_0000) as u32 })
}

/// A point as written down by the recorder: its label, cell and position
/// (the bit patterns of the `f32` coordinates).
pub struct PointRecord {
    pub note: String,
    pub area_no: u8,
    pub grid_x_no: u8,
    pub grid_z_no: u8,
    pub pos_x_bits: u32,
    pub pos_y_bits: u32,
    pub pos_z_bits: u32,
}

/// `p` is the custom point of record `r` labelled by message `id`.
pub open spec fn point_of(p: CustomPoint, r: PointRecord, id: i32) -> bool {
    &&& p.area_no == r.area_no
    &&& p.grid_x_no == r.grid_x_no
    &&& p.grid_z_no == r.grid_z_no
    &&& p.pos_x_bits == r.pos_x_bits
    &&& p.pos_y_bits == r.pos_y_bits
    &&& p.pos_z_bits == r.pos_z_bits
    &&& p.msg_id == id
}

/// Turns the recorded points into custom points: each gets the next message
/// id (counting down from the allocator's next id) and its note is registered
/// as that id's PlaceName text.
pub fn custom_points(
    records: &[PointRecord],
    alloc: &mut MessageIdAllocator,
    registry: &mut MessageRegistry,
) -> (r: Vec<CustomPoint>)
    requires
        old(alloc).next - records@.len() >= i32::MIN,
    ensures
        r@.len() == records@.len(),
        final(alloc).next == old(alloc).next - records@.len(),
        final(registry).entries@.len() == old(registry).entries@.len() + records@.len(),
        forall|k: int| 0 <= k < old(registry).entries@.len() ==> #[trigger] final(registry).entries@[k] == old(registry).entries@[k],
        forall|i: int|
            0 <= i < records@.len() ==> {
                &&& point_of(#[trigger] r@[i], records@[i], (old(alloc).next - i) as i32)
                &&& final(registry).entries@[old(registry).entries@.len() + i].bnd == MSGBND_PLACE_NAME
                &&& final(registry).entries@[old(registry).entries@.len() + i].id == old(alloc).next - i
                &&& final(registry).entries@[old(registry).entries@.len() + i].text@ == message_buffer(records@[i].note@)
            },
{
    let ghost next0 = alloc.next;
    let ghost n0 = registry.entries@.len();
    let mut out: Vec<CustomPoint> = Vec::new();
    for i in 0..records.len()
        invariant
            next0 - records@.len() >= i32::MIN,
            alloc.next == next0 - i,
            out@.len() == i,
            registry.entries@.len() == n0 + i,
            forall|k: int| 0 <= k < n0 ==> #[trigger] registry.entries@[k] == old(registry).entries@[k],
            n0 == old(registry).entries@.len(),
            next0 == old(alloc).next,
            forall|j: int| 0 <= j < i ==> point_of(#[trigger] out@[j], records@[j], (next0 - j) as i32),
            forall|j: int| 0 <= j < i ==> #[trigger] registry.entries@[n0 + j].bnd == MSGBND_PLACE_NAME,
            forall|j: int| 0 <= j < i ==> #[trigger] registry.entries@[n0 + j].id == next0 - j,
            forall|j: int| 0 <= j < i ==> #[trigger] registry.entries@[n0 + j].text@ == message_buffer(records@[j].note@),
    {
        let rec = &records[i];
        let id = alloc.alloc_message_id();
        let ghost before = registry.entries@;
        let note = rec.note.as_str();
        assert(note@ == records@[i as int].note@);
        registry.register_message_in_bnd(MSGBND_PLACE_NAME, id, note);
        assert(registry.entries@[n0 + i].id == id);
        assert forall|j: int| 0 <= j < n0 + i implies #[trigger] registry.entries@[j] == before[j] by {
        }
        out.push(
            CustomPoint {
                area_no: rec.area_no,
                grid_x_no: rec.grid_x_no,
                grid_z_no: rec.grid_z_no,
                pos_x_bits: rec.pos_x_bits,
                pos_y_bits: rec.pos_y_bits,
                pos_z_bits: rec.pos_z_bits,
                msg_id: id,
            },
        );
    }
    out
}

/// Bytes of the getter's code that its references are decoded from.
pub const GETTER_CODE_LEN: usize = 0x72;

/// The two references the param getter makes, decoded from its code copied
/// from `entry`: the global holding the param registry (`mov rcx,[rip+disp]`
/// at +0x2c, 7 bytes) and `GetParamResCap` (`call rel32` at +0x6d, 5 bytes).
pub fn getter_refs(entry: u64, code: &[u8]) -> (r: (u64, u64))
    requires
        code@.len() >= GETTER_CODE_LEN,
    ensures
        r.0 == rip_target(entry + 0x33, code@.subrange(0x2f, 0x33)),
        r.1 == rip_target(entry + 0x72, code@.subrange(0x6e, 0x72)),
{
    let singleton_global = rip_relative_target(entry, code, 0x2f, 0x33);
    let get_param = rip_relative_target(entry, code, 0x6e, 0x72);
    (singleton_global, get_param)
}

proof fn lemma_table_bytes_len(m: StrideMode, rs: int, k: int)
    requires
        0 <= k,
        m.size == 4 || m.size == 8,
        m.size == 4 ==> m.stride == 12,
        m.size == 8 ==> m.stride == 24,
    ensures
        table_bytes(m, rs, k).len() == k * m.stride,
    decreases k,
{
    if k > 0 {
        lemma_table_bytes_len(m, rs, k - 1);
        let v = (rs + (k - 1) * ROW_SIZE) as nat;
        assert(entry_bytes(m, v).len() == m.stride);
        assert((k - 1) * m.stride + m.stride == k * m.stride) by (nonlinear_arith);
    }
}

proof fn lemma_vanilla_rows_len(s: Seq<u8>, m: StrideMode, k: int)
    requires
        0 <= k,
        forall|i: int| 0 <= i < k ==> #[trigger] entry_readable(s, m, i),
    ensures
        vanilla_rows(s, m, k).len() == k * ROW_SIZE,
    decreases k,
{
    if k > 0 {
        lemma_vanilla_rows_len(s, m, k - 1);
        assert(entry_readable(s, m, k - 1));
    }
}

proof fn lemma_put_len(s: Seq<u8>, off: int, b: Seq<u8>)
    requires
        0 <= off,
        off + b.len() <= s.len(),
    ensures
        put(s, off, b).len() == s.len(),
{
}

proof fn lemma_point_row_len(row: Seq<u8>, p: CustomPoint)
    requires
        row.len() == ROW_SIZE,
    ensures
        point_row(row, p).len() == ROW_SIZE,
{
    let r1 = row.update(0x20, p.area_no).update(0x21, p.grid_x_no).update(0x22, p.grid_z_no);
    let a = put(r1, 0x24, le4(p.pos_x_bits as nat));
    let b = put(a, 0x28, le4(p.pos_y_bits as nat));
    let r2 = put(b, 0x2c, le4(p.pos_z_bits as nat));
    let r3 = put(r2, 0x0c, le2(CUSTOM_ICON_ID as nat));
    let r4 = r3.update(0x10, r3[0x10] | 4u8).update(0x90, 0u8);
    lemma_put_len(r1, 0x24, le4(p.pos_x_bits as nat));
    lemma_put_len(a, 0x28, le4(p.pos_y_bits as nat));
    lemma_put_len(b, 0x2c, le4(p.pos_z_bits as nat));
    lemma_put_len(r2, 0x0c, le2(CUSTOM_ICON_ID as nat));
    lemma_put_len(r4, 0x30, i32_le(p.msg_id));
}

proof fn lemma_custom_rows_len(t: Seq<u8>, pts: Seq<CustomPoint>, k: int)
    requires
        t.len() == ROW_SIZE,
        0 <= k <= pts.len(),
    ensures
        custom_rows(t, pts, k).len() == k * ROW_SIZE,
    decreases k,
{
    if k > 0 {
        lemma_custom_rows_len(t, pts, k - 1);
        lemma_point_row_len(t, pts[k - 1]);
    }
}

#[verifier::spinoff_prover]
#[verifier::rlimit(50)]
proof fn lemma_custom_ids(max: nat, n: nat, k: int)
    requires
        0 <= k,
    ensures
        custom_ids(max, n, k).len() == 8 * k,
        forall|j: int|
            0 <= j < k ==> #[trigger] custom_ids(max, n, k).subrange(8 * j, 8 * j + 4) == le4(
                ((max + j + 1) % 0x1_0000_0000) as nat,
            ) && custom_ids(max, n, k).subrange(8 * j + 4, 8 * j + 8) == le4(((n + j) % 0x1_0000_0000) as nat),
    decreases k,
{
    if k > 0 {
        lemma_custom_ids(max, n, k - 1);
        let prev = custom_ids(max, n, k - 1);
        let a = le4(((max + k) % 0x1_0000_0000) as nat);
        let b = le4(((n + k - 1) % 0x1_0000_0000) as nat);
        let cur = custom_ids(max, n, k);
        assert(cur == prev + a + b);
        assert forall|j: int| 0 <= j < k implies #[trigger] cur.subrange(8 * j, 8 * j + 4) == le4(
            ((max + j + 1) % 0x1_0000_0000) as nat,
        ) && cur.subrange(8 * j + 4, 8 * j + 8) == le4(((n + j) % 0x1_0000_0000) as nat) by {
            if j < k - 1 {
                assert(cur.subrange(8 * j, 8 * j + 4) =~= prev.subrange(8 * j, 8 * j + 4));
                assert(cur.subrange(8 * j + 4, 8 * j + 8) =~= prev.subrange(8 * j + 4, 8 * j + 8));
            } else {
                assert(cur.subrange(8 * j, 8 * j + 4) =~= a);
                assert(cur.subrange(8 * j + 4, 8 * j + 8) =~= b);
            }
        }
    }
}

proof fn lemma_max_id(s: Seq<u8>, tab: int, n: int)
    ensures
        forall|i: int| 0 <= i < n ==> id_at(s, tab, i) <= max_id(s, tab, n),
    decreases n,
{
    if n > 0 {
        lemma_max_id(s, tab, n - 1);
    }
}

/// The part of a rebuilt block before its id table.
pub open spec fn built_prefix(s: Seq<u8>, pts: Seq<CustomPoint>) -> Seq<u8> {
    let m = src_mode(s);
    let n = src_count(s);
    let nc = new_count(s, pts);
    let d = new_data_size(s, pts);
    le4((d % 0x1_0000_0000) as nat) + le4(nc % 0x1_0000_0000) + s.subrange(8, 16) + s.subrange(16, 26)
        + le2(nc % 0x1_0000) + s.subrange(28, 16 + m.table_off) + table_bytes(m, rows_start(s, pts), nc as int)
        + vanilla_rows(s, m, n as int) + custom_rows(src_row(s, m, template_index(s) as int), pts, pts.len() as int)
        + zeros(spec_align16(d) - d)
}

/// The id table of a rebuilt block.
pub open spec fn built_ids(s: Seq<u8>, pts: Seq<CustomPoint>) -> Seq<u8> {
    let tab = src_id_table(s);
    let n = src_count(s);
    s.subrange(16 + tab, 16 + tab + n * 8) + custom_ids(max_id(s, tab, n as int), n, pts.len() as int)
}

proof fn lemma_built_split(s: Seq<u8>, pts: Seq<CustomPoint>)
    requires
        source_readable(s),
        src_count(s) > 0,
        src_id_table(s) > 0,
    ensures
        built_block(s, pts) == built_prefix(s, pts) + built_ids(s, pts),
        built_prefix(s, pts).len() == 16 + spec_align16(new_data_size(s, pts)),
        built_ids(s, pts).len() == new_count(s, pts) * 8,
{
    let m = src_mode(s);
    let n = src_count(s);
    let c = pts.len();
    let nc = new_count(s, pts);
    let d = new_data_size(s, pts);
    lemma_stride_mode(s[16int + 0x2d], s[16int + 0x2e]);
    lemma_table_bytes_len(m, rows_start(s, pts), nc as int);
    lemma_vanilla_rows_len(s, m, n as int);
    assert(entry_readable(s, m, template_index(s) as int));
    lemma_custom_rows_len(src_row(s, m, template_index(s) as int), pts, c as int);
    lemma_custom_ids(max_id(s, src_id_table(s), n as int), n, c as int);
    assert(d == m.table_off + nc * m.stride + nc * ROW_SIZE);
    assert(n * ROW_SIZE + c * ROW_SIZE == nc * ROW_SIZE) by (nonlinear_arith)
        requires
            nc == n + c,
    ;
    assert(spec_align16(d) >= d && spec_align16(d) - d < 16) by (nonlinear_arith)
        requires
            d >= 0,
    ;
    assert(n * 8 + 8 * c == nc * 8) by (nonlinear_arith)
        requires
            nc == n + c,
    ;
    reveal(built_block);
    assert(built_block(s, pts) =~= built_prefix(s, pts) + built_ids(s, pts));
}

proof fn lemma_id_window(pre: Seq<u8>, ids: Seq<u8>, t: int, i: int)
    requires
        pre.len() == 16 + t,
        0 <= i,
        i * 8 + 8 <= ids.len(),
    ensures
        (pre + ids).subrange(16 + t + i * 8, 16 + t + i * 8 + 4) == ids.subrange(i * 8, i * 8 + 4),
        (pre + ids).subrange(16 + t + i * 8 + 4, 16 + t + i * 8 + 8) == ids.subrange(i * 8 + 4, i * 8 + 8),
{
    assert((pre + ids).subrange(16 + t + i * 8, 16 + t + i * 8 + 4) =~= ids.subrange(i * 8, i * 8 + 4));
    assert((pre + ids).subrange(16 + t + i * 8 + 4, 16 + t + i * 8 + 8) =~= ids.subrange(i * 8 + 4, i * 8 + 8));
}

proof fn lemma_entries_vanilla(pre: Seq<u8>, cus: Seq<u8>, s: Seq<u8>, tab: int, t: int, n: int)
    requires
        pre.len() == 16 + t,
        0 <= tab,
        0 <= n,
        16 + tab + n * 8 <= s.len(),
    ensures
        forall|i: int|
            0 <= i < n ==> #[trigger] id_at(pre + (s.subrange(16 + tab, 16 + tab + n * 8) + cus), t, i) == id_at(
                s,
                tab,
                i,
            ) && index_at(pre + (s.subrange(16 + tab, 16 + tab + n * 8) + cus), t, i) == index_at(s, tab, i),
{
    let van = s.subrange(16 + tab, 16 + tab + n * 8);
    let ids = van + cus;
    assert forall|i: int| 0 <= i < n implies #[trigger] id_at(pre + ids, t, i) == id_at(s, tab, i) && index_at(
        pre + ids,
        t,
        i,
    ) == index_at(s, tab, i) by {
        assert(i * 8 + 8 <= n * 8) by (nonlinear_arith)
            requires
                i < n,
        ;
        lemma_id_window(pre, ids, t, i);
        assert(ids.subrange(i * 8, i * 8 + 4) =~= s.subrange(16 + tab + i * 8, 16 + tab + i * 8 + 4));
        assert(ids.subrange(i * 8 + 4, i * 8 + 8) =~= s.subrange(16 + tab + i * 8 + 4, 16 + tab + i * 8 + 8));
    }
}

#[verifier::spinoff_prover]
#[verifier::rlimit(80)]
proof fn lemma_entry_custom(pre: Seq<u8>, van: Seq<u8>, t: int, n: int, c: int, mx: nat, k: int)
    requires
        pre.len() == 16 + t,
        0 <= n,
        0 <= k < c,
        van.len() == n * 8,
        mx + c < 0x1_0000_0000,
        n + c < 0x1_0000_0000,
    ensures
        id_at(pre + (van + custom_ids(mx, n as nat, c)), t, n + k) == mx + k + 1,
        index_at(pre + (van + custom_ids(mx, n as nat, c)), t, n + k) == n + k,
{
    let cus = custom_ids(mx, n as nat, c);
    let ids = van + cus;
    lemma_custom_ids(mx, n as nat, c);
    assert((n + k) * 8 == n * 8 + 8 * k) by (nonlinear_arith);
    assert(8 * k + 8 <= 8 * c) by (nonlinear_arith)
        requires
            k < c,
    ;
    lemma_id_window(pre, ids, t, n + k);
    assert(ids.subrange((n + k) * 8, (n + k) * 8 + 4) =~= cus.subrange(8 * k, 8 * k + 4));
    assert(ids.subrange((n + k) * 8 + 4, (n + k) * 8 + 8) =~= cus.subrange(8 * k + 4, 8 * k + 8));
    let x = (mx + k + 1) as nat;
    let y = (n + k) as nat;
    assert(x % 0x1_0000_0000 == x);
    assert(y % 0x1_0000_0000 == y);
    assert(cus.subrange(8 * k, 8 * k + 4) == le4(x));
    assert(cus.subrange(8 * k + 4, 8 * k + 8) == le4(y));
    lemma_le4_roundtrip(x);
    lemma_le4_roundtrip(y);
}

proof fn lemma_first_witness(s: Seq<u8>, tab: int, want: u32, i: int) -> (f: int)
    requires
        0 <= i,
        id_at(s, tab, i) == want,
    ensures
        0 <= f <= i,
        id_at(s, tab, f) == want,
        forall|k: int| 0 <= k < f ==> id_at(s, tab, k) != want,
    decreases i,
{
    if exists|k: int| 0 <= k < i && id_at(s, tab, k) == want {
        let k = choose|k: int| 0 <= k < i && id_at(s, tab, k) == want;
        lemma_first_witness(s, tab, want, k)
    } else {
        i
    }
}

proof fn lemma_resolve(b: Seq<u8>, t: int, s: Seq<u8>, tab: int, n: int, c: int, mx: nat, want: u32, j: int)
    requires
        0 <= n,
        0 <= c,
        forall|i: int| 0 <= i < n ==> #[trigger] id_at(b, t, i) == id_at(s, tab, i) && index_at(b, t, i) == index_at(s, tab, i),
        forall|k: int| 0 <= k < c ==> #[trigger] id_at(b, t, n + k) == mx + k + 1 && index_at(b, t, n + k) == n + k,
        forall|i: int| 0 <= i < n ==> #[trigger] id_at(s, tab, i) <= mx,
    ensures
        spec_find_row_index(s, tab, n, want) is Some ==> spec_find_row_index(b, t, n + c, want) == spec_find_row_index(
            s,
            tab,
            n,
            want,
        ),
        0 <= j < c ==> spec_find_row_index(b, t, n + c, (mx + j + 1) as u32) == Some((n + j) as nat),
{
    if spec_find_row_index(s, tab, n, want) is Some {
        let i0 = choose|i: int| 0 <= i < n && id_at(s, tab, i) == want;
        let i = lemma_first_witness(s, tab, want, i0);
        lemma_find_first(s, tab, n, want, i);
        assert forall|k: int| 0 <= k < i implies id_at(b, t, k) != want by {
            assert(id_at(b, t, k) == id_at(s, tab, k));
        }
        assert(id_at(b, t, i) == id_at(s, tab, i));
        lemma_find_first(b, t, n + c, want, i);
    }
    if 0 <= j < c {
        let w = (mx + j + 1) as u32;
        assert(id_at(b, t, n + j) == mx + j + 1);
        assert forall|k: int| 0 <= k < n + j implies id_at(b, t, k) != w by {
            if k < n {
                assert(id_at(b, t, k) == id_at(s, tab, k));
                assert(id_at(s, tab, k) <= mx);
            } else {
                assert(id_at(b, t, n + (k - n)) == mx + (k - n) + 1);
            }
        }
        lemma_find_first(b, t, n + c, w, n + j);
    }
}

/// The rebuilt block's id table resolves every vanilla id to the row it had,
/// and every custom id (the largest vanilla id plus `j + 1`) to the `j`th row
/// after the vanilla rows, as long as the new ids and row numbers fit in `u32`.
#[verifier::spinoff_prover]
pub proof fn law_built_ids_resolve(s: Seq<u8>, pts: Seq<CustomPoint>, want: u32, j: int)
    requires
        source_readable(s),
        src_count(s) > 0,
        src_id_table(s) > 0,
        max_id(s, src_id_table(s), src_count(s) as int) + pts.len() < 0x1_0000_0000,
        new_count(s, pts) < 0x1_0000_0000,
    ensures
        spec_find_row_index(s, src_id_table(s), src_count(s) as int, want) is Some ==> spec_find_row_index(
            built_block(s, pts),
            spec_align16(new_data_size(s, pts)),
            new_count(s, pts) as int,
            want,
        ) == spec_find_row_index(s, src_id_table(s), src_count(s) as int, want),
        0 <= j < pts.len() ==> spec_find_row_index(
            built_block(s, pts),
            spec_align16(new_data_size(s, pts)),
            new_count(s, pts) as int,
            (max_id(s, src_id_table(s), src_count(s) as int) + j + 1) as u32,
        ) == Some((src_count(s) + j) as nat),
{
    let tab = src_id_table(s);
    let n = src_count(s) as int;
    let c = pts.len() as int;
    let t = spec_align16(new_data_size(s, pts));
    let pre = built_prefix(s, pts);
    let mx = max_id(s, tab, n);
    let van = s.subrange(16 + tab, 16 + tab + n * 8);
    let cus = custom_ids(mx, n as nat, c);
    lemma_built_split(s, pts);
    let b = pre + (van + cus);
    assert(built_block(s, pts) == b);
    lemma_max_id(s, tab, n);
    lemma_entries_vanilla(pre, cus, s, tab, t, n);
    assert forall|k: int| 0 <= k < c implies #[trigger] id_at(b, t, n + k) == mx + k + 1 && index_at(b, t, n + k)
        == n + k by {
        lemma_entry_custom(pre, van, t, n, c, mx, k);
    }
    lemma_resolve(b, t, s, tab, n, c, mx, want, j);
}

} // verus!

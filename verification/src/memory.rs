//! Decisions behind the process-memory helpers: which regions are readable,
//! where to try to place executable memory near a hook, the byte order of a
//! race-safe patch, and the windows scanned for a merchant's range literal.

use vstd::prelude::*;

verus! {

/// A committed, readable region of the process's memory.
#[derive(Clone, Copy, Debug, PartialEq, Eq, Structural)]
pub struct MemoryRegion {
    pub base: usize,
    pub size: usize,
}

/// Page protections that allow reading (`PAGE_READONLY`, `PAGE_READWRITE`,
/// `PAGE_WRITECOPY`, and their executable variants).
pub const READ_PROT: u32 = 0xEE;
/// `PAGE_NOACCESS`.
pub const PAGE_NOACCESS: u32 = 0x01;

/// What a `VirtualQuery` reports for the region holding some address.
#[derive(Clone, Copy, Debug)]
pub struct RegionInfo {
    pub base: usize,
    pub size: usize,
    pub committed: bool,
    pub protect: u32,
}

/// A region is readable when it is committed, not `PAGE_NOACCESS`, and has a
/// readable protection bit.
pub open spec fn spec_is_readable(info: RegionInfo) -> bool {
    info.committed && info.protect != PAGE_NOACCESS && info.protect & READ_PROT != 0
}

pub fn is_readable(info: RegionInfo) -> (r: bool)
    ensures
        r == spec_is_readable(info),
{
    info.committed && info.protect != PAGE_NOACCESS && info.protect & READ_PROT != 0
}

/// `a + b`, or `usize::MAX` when that overflows.
pub open spec fn sat_add(a: int, b: int) -> int {
    if a + b > usize::MAX {
        usize::MAX as int
    } else {
        a + b
    }
}

/// One step of walking the address space: the region to record (when
/// readable) and the next address to query, `None` once the walk stops
/// advancing.
pub fn region_step(addr: usize, info: RegionInfo) -> (r: (Option<MemoryRegion>, Option<usize>))
    ensures
        r.0 == (if spec_is_readable(info) {
            Some(MemoryRegion { base: info.base, size: info.size })
        } else {
            None
        }),
        r.1 == (if sat_add(info.base as int, info.size as int) <= addr {
            None
        } else {
            Some(sat_add(info.base as int, info.size as int) as usize)
        }),
{
    let region = if is_readable(info) {
        Some(MemoryRegion { base: info.base, size: info.size })
    } else {
        None
    };
    let next = info.base.saturating_add(info.size);
    if next <= addr {
        (region, None)
    } else {
        (region, Some(next))
    }
}

/// Allocation granularity of the near-placement search.
pub const GRANULARITY: u64 = 0x1_0000;
/// Steps tried upward (and then downward) from the preferred address.
pub const MAX_STEPS: u64 = 0x8000;

/// The `k`-th address to try when placing executable memory near
/// `preferred`: first upward from the 64 KiB-aligned address in 64 KiB steps
/// (saturating), then downward from one step below it; the downward search
/// ends (`None`) once it would reach address 0.
pub open spec fn spec_alloc_candidate(preferred: u64, k: int) -> Option<u64> {
    let aligned = preferred - preferred % 0x1_0000;
    if 0 <= k < MAX_STEPS {
        let up = aligned + k * 0x1_0000;
        Some(if up > u64::MAX { u64::MAX } else { up as u64 })
    } else if MAX_STEPS <= k < 2 * MAX_STEPS - 1 {
        let i = k - MAX_STEPS + 1;
        if aligned <= i * 0x1_0000 {
            None
        } else {
            Some((aligned - i * 0x1_0000) as u64)
        }
    } else {
        None
    }
}

pub fn alloc_candidate(preferred: u64, k: u64) -> (r: Option<u64>)
    ensures
        r == spec_alloc_candidate(preferred, k as int),
{
    let aligned = preferred & !(GRANULARITY - 1);
    assert(preferred & !0xFFFFu64 == preferred - preferred % 0x1_0000) by (bit_vector);
    if k < MAX_STEPS {
        Some(aligned.saturating_add(k * GRANULARITY))
    } else if k < 2 * MAX_STEPS - 1 {
        let i = k - MAX_STEPS + 1;
        let step = i * GRANULARITY;
        if aligned <= step {
            None
        } else {
            Some(aligned - step)
        }
    } else {
        None
    }
}

/// The order in which a patch's bytes are written: every byte but the
/// opcode, front to back, then the opcode, so no observer ever decodes a
/// half-written branch.
pub open spec fn spec_write_order(len: int, opcode: int) -> Seq<usize> {
    Seq::new((len - 1) as nat, |k: int| (if k < opcode { k } else { k + 1 }) as usize).push(opcode as usize)
}

pub fn write_order(len: usize, opcode: usize) -> (r: Vec<usize>)
    requires
        opcode < len,
    ensures
        r@ == spec_write_order(len as int, opcode as int),
{
    let mut out: Vec<usize> = Vec::new();
    for i in 0..len
        invariant
            opcode < len,
            out@ == Seq::new(
                (if i <= opcode { i as int } else { i - 1 }) as nat,
                |k: int| (if k < opcode { k } else { k + 1 }) as usize,
            ),
    {
        if i != opcode {
            out.push(i);
        }
        assert(out@ =~= Seq::new(
            (if i + 1 <= opcode { i + 1 } else { i as int }) as nat,
            |k: int| (if k < opcode { k } else { k + 1 }) as usize,
        ));
    }
    out.push(opcode);
    assert(out@ =~= spec_write_order(len as int, opcode as int));
    out
}

/// The maximum number of bytes the merchant identity scan reads.
pub const MAX_IDENTIFY_SCAN: usize = 0x20_0000;

/// A window of memory to scan: its start address and length.
#[derive(Clone, Copy, Debug, PartialEq, Eq, Structural)]
pub struct ScanWindow {
    pub start: usize,
    pub len: usize,
}

/// The windows the identity scan reads, region by region: each region
/// reaching past `group_addr` is read from `group_addr` (or its start) on,
/// until `MAX_IDENTIFY_SCAN` bytes have been read in all; `scanned` is what
/// earlier regions already used.
pub open spec fn windows_from(rs: Seq<MemoryRegion>, group_addr: int, scanned: int) -> Seq<ScanWindow>
    decreases rs.len(),
{
    if rs.len() == 0 {
        Seq::empty()
    } else {
        let r = rs[0];
        let rest = rs.drop_first();
        if sat_add(r.base as int, r.size as int) <= group_addr {
            windows_from(rest, group_addr, scanned)
        } else {
            let off = if group_addr > r.base { group_addr - r.base } else { 0 };
            let start = if off < r.size { off } else { r.size as int };
            let left = r.size - start;
            let budget = if left < MAX_IDENTIFY_SCAN - scanned { left } else { MAX_IDENTIFY_SCAN - scanned };
            if budget <= 0 {
                windows_from(rest, group_addr, scanned)
            } else {
                seq![ScanWindow { start: (r.base + start) as usize, len: budget as usize }] + windows_from(
                    rest,
                    group_addr,
                    scanned + budget,
                )
            }
        }
    }
}

/// The windows, in order, in which to look for the range literal of the
/// merchant whose state group lies at `group_addr`.
pub fn scan_windows(regions: &[MemoryRegion], group_addr: usize) -> (r: Vec<ScanWindow>)
    ensures
        r@ == windows_from(regions@, group_addr as int, 0),
{
    let mut out: Vec<ScanWindow> = Vec::new();
    let mut scanned: usize = 0;
    let mut i: usize = 0;
    assert(regions@.skip(0) =~= regions@);
    while i < regions.len()
        invariant
            i <= regions.len(),
            scanned <= MAX_IDENTIFY_SCAN,
            windows_from(regions@, group_addr as int, 0) == out@ + windows_from(
                regions@.skip(i as int),
                group_addr as int,
                scanned as int,
            ),
        decreases regions.len() - i,
    {
        let r = regions[i];
        let ghost rest = regions@.skip(i as int);
        assert(rest[0] == r);
        assert(rest.drop_first() =~= regions@.skip(i + 1));
        if r.base.saturating_add(r.size) > group_addr {
            let off = if group_addr > r.base { group_addr - r.base } else { 0 };
            let start = if off < r.size { off } else { r.size };
            let left = r.size - start;
            let budget = if left < MAX_IDENTIFY_SCAN - scanned { left } else { MAX_IDENTIFY_SCAN - scanned };
            if budget > 0 {
                let ghost before = out@;
                out.push(ScanWindow { start: r.base + start, len: budget });
                assert(out@ =~= before + seq![ScanWindow { start: (r.base + start) as usize, len: budget }]);
                scanned = scanned + budget;
            }
        }
        i = i + 1;
    }
    assert(regions@.skip(i as int) =~= Seq::<MemoryRegion>::empty());
    assert(out@ =~= out@ + Seq::<ScanWindow>::empty());
    out
}

} // verus!

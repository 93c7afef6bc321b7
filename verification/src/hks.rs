//! Havok Script integration: when the game loads the chunk
//! `.../action/script/c0000.hks`, the embedded posture script is served in its
//! place; every other chunk passes through, with a bounded, deduplicated
//! diagnostic log of the loads seen.

use vstd::prelude::*;
use std::collections::HashSet;

verus! {

broadcast use vstd::std_specs::hash::group_hash_axioms;

/// Bytes of the chunk name window inspected for the terminating NUL.
pub const NAME_WINDOW: usize = 300;

/// The chunk name suffix that selects the posture script.
pub const NEEDLE: [u8; 24] = [
    0x2f, 0x61, 0x63, 0x74, 0x69, 0x6f, 0x6e, 0x2f, 0x73, 0x63, 0x72, 0x69, 0x70, 0x74, 0x2f, 0x63,
    0x30, 0x30, 0x30, 0x30, 0x2e, 0x68, 0x6b, 0x73,
];

/// Most lines the load probe writes.
pub const MAX_LOGGED_LINES: usize = 600;

/// Most distinct small chunk sizes the probe remembers.
pub const MAX_SEEN_SIZES: usize = 512;

/// Chunks at least this large are always logged.
pub const ALWAYS_LOG_SIZE: usize = 1_000_000;

/// The position of the first NUL byte of `s`.
pub open spec fn first_nul(s: Seq<u8>) -> Option<int> {
    if exists|i: int| 0 <= i < s.len() && s[i] == 0 {
        Some(choose|i: int| 0 <= i < s.len() && s[i] == 0 && forall|j: int| 0 <= j < i ==> s[j] != 0)
    } else {
        None
    }
}

/// ASCII lower case of a byte.
pub open spec fn lower(b: u8) -> u8 {
    if 0x41 <= b <= 0x5a {
        (b + 0x20) as u8
    } else {
        b
    }
}

/// `a` and `b` are equal up to ASCII case.
pub open spec fn eq_ignore_case(a: Seq<u8>, b: Seq<u8>) -> bool {
    a.len() == b.len() && forall|i: int| 0 <= i < a.len() ==> lower(#[trigger] a[i]) == lower(b[i])
}

/// The NUL-terminated name in `window` ends with `/action/script/c0000.hks`,
/// ignoring ASCII case; a window without NUL names nothing.
pub open spec fn spec_is_c0000_chunk(window: Seq<u8>) -> bool {
    match first_nul(window) {
        Some(p) => p >= 24 && eq_ignore_case(window.subrange(p - 24, p), NEEDLE@),
        None => false,
    }
}

fn lower_byte(b: u8) -> (r: u8)
    ensures
        r == lower(b),
{
    if 0x41 <= b && b <= 0x5a {
        b + 0x20
    } else {
        b
    }
}

/// Whether the chunk name read into `window` is the posture script's.
pub fn is_c0000_chunk(window: &[u8]) -> (r: bool)
    ensures
        r == spec_is_c0000_chunk(window@),
{
    let mut p: usize = 0;
    while p < window.len() && window[p] != 0
        invariant
            p <= window@.len(),
            forall|j: int| 0 <= j < p ==> window@[j] != 0,
        decreases window@.len() - p,
    {
        p = p + 1;
    }
    if p == window.len() {
        assert(!exists|i: int| 0 <= i < window@.len() && window@[i] == 0);
        return false;
    }
    proof {
        assert(window@[p as int] == 0);
        let q = first_nul(window@);
        let c = choose|i: int| 0 <= i < window@.len() && window@[i] == 0 && forall|j: int| 0 <= j < i ==> window@[j] != 0;
        assert(q == Some(c));
        assert(c == p as int) by {
            if c < p as int {
            } else if c > p as int {
            }
        }
    }
    if p < 24 {
        return false;
    }
    let start = p - 24;
    for k in 0..24
        invariant
            start == p - 24,
            p < window@.len(),
            first_nul(window@) == Some(p as int),
            forall|i: int| 0 <= i < k ==> lower(window@[start + i]) == lower(NEEDLE@[i]),
    {
        if lower_byte(window[start + k]) != lower_byte(NEEDLE[k]) {
            proof {
                let a = window@.subrange(p - 24, p as int);
                assert(a[k as int] == window@[start + k]);
                assert(!eq_ignore_case(a, NEEDLE@));
            }
            return false;
        }
    }
    proof {
        let a = window@.subrange(p - 24, p as int);
        assert forall|i: int| 0 <= i < a.len() implies lower(#[trigger] a[i]) == lower(NEEDLE@[i]) by {
            assert(a[i] == window@[start + i]);
        }
    }
    true
}

/// Kind of a loaded buffer, for the diagnostic log.
#[derive(Clone, Copy, Debug, PartialEq, Eq, Structural)]
pub enum BufferKind {
    /// No buffer, or one shorter than four bytes.
    Unknown,
    /// Compiled Lua (`1b 4c 75 61`).
    Bytecode,
    /// Anything else.
    Source,
}

/// `head` (the first bytes of a buffer of `size` bytes, when there is one)
/// starts with the Lua bytecode signature.
pub open spec fn spec_buffer_kind(head: Option<Seq<u8>>, size: usize) -> BufferKind {
    match head {
        None => BufferKind::Unknown,
        Some(h) => if size < 4 || h.len() < 4 {
            BufferKind::Unknown
        } else if h[0] == 0x1b && h[1] == 0x4c && h[2] == 0x75 && h[3] == 0x61 {
            BufferKind::Bytecode
        } else {
            BufferKind::Source
        },
    }
}

/// Tells compiled Lua from source by the buffer's first bytes.
pub fn buffer_kind(head: Option<&[u8]>, size: usize) -> (r: BufferKind)
    ensures
        r == spec_buffer_kind(
            match head {
                Some(h) => Some(h@),
                None => None,
            },
            size,
        ),
{
    match head {
        None => BufferKind::Unknown,
        Some(h) => {
            if size < 4 || h.len() < 4 {
                BufferKind::Unknown
            } else if h[0] == 0x1b && h[1] == 0x4c && h[2] == 0x75 && h[3] == 0x61 {
                BufferKind::Bytecode
            } else {
                BufferKind::Source
            }
        },
    }
}

impl BufferKind {
    /// The kind's label in the log: `???`, `bc` or `src`.
    pub fn label(self) -> (r: &'static str)
        ensures
            self == BufferKind::Unknown ==> r@ == "???"@,
            self == BufferKind::Bytecode ==> r@ == "bc"@,
            self == BufferKind::Source ==> r@ == "src"@,
    {
        match self {
            BufferKind::Unknown => "???",
            BufferKind::Bytecode => "bc",
            BufferKind::Source => "src",
        }
    }
}

/// The load probe's counters: calls seen, lines written, and the small chunk
/// sizes already logged (absent until the first small chunk).
pub struct ProbeState {
    pub total_calls: usize,
    pub logged_lines: usize,
    pub seen: Option<HashSet<usize>>,
}

/// The probe's decision for one load, as a function of the state before it:
/// `(calls after, seen after, lines after, logged call number)`.
pub open spec fn probe_spec(
    total: usize,
    logged: usize,
    seen: Option<Set<usize>>,
    null_or_empty: bool,
    size: usize,
) -> (usize, Option<Set<usize>>, usize, Option<usize>) {
    if null_or_empty {
        (total, seen, logged, None)
    } else {
        let calls = (total + 1) as usize;
        let calls = if total == usize::MAX { 0usize } else { calls };
        let big = size >= ALWAYS_LOG_SIZE;
        let (seen2, skip) = if big {
            (seen, false)
        } else {
            match seen {
                None => (Some(Set::empty()), false),
                Some(s) => if s.len() >= MAX_SEEN_SIZES || s.contains(size) {
                    (seen, true)
                } else {
                    (Some(s.insert(size)), false)
                },
            }
        };
        if skip || logged >= MAX_LOGGED_LINES {
            (calls, seen2, logged, None)
        } else {
            (calls, seen2, (logged + 1) as usize, Some(calls))
        }
    }
}

impl ProbeState {
    /// A probe that has seen nothing.
    pub fn new() -> (r: Self)
        ensures
            r.total_calls == 0,
            r.logged_lines == 0,
            r.seen is None,
    {
        ProbeState { total_calls: 0, logged_lines: 0, seen: None }
    }

    /// The view of the remembered sizes.
    pub open spec fn seen_view(&self) -> Option<Set<usize>> {
        match self.seen {
            Some(s) => Some(s@),
            None => None,
        }
    }

    /// Records one load of `size` bytes (`null_or_empty` when there is no
    /// buffer or it is empty, which the probe ignores) and returns the call
    /// number to log, if this load gets a log line: large chunks always
    /// (while lines remain), small ones only for a size not seen before while
    /// fewer than [`MAX_SEEN_SIZES`] sizes are remembered; the very first small
    /// chunk only starts the memory of sizes.
    pub fn step(&mut self, null_or_empty: bool, size: usize) -> (r: Option<usize>)
        requires
            old(self).seen matches Some(s) ==> s@.finite() && s.len() == s@.len(),
        ensures
            ({
                let (t, s, l, out) = probe_spec(
                    old(self).total_calls,
                    old(self).logged_lines,
                    old(self).seen_view(),
                    null_or_empty,
                    size,
                );
                &&& final(self).total_calls == t
                &&& final(self).seen_view() == s
                &&& final(self).logged_lines == l
                &&& r == out
            }),
            final(self).seen matches Some(s) ==> s@.finite() && s.len() == s@.len(),
    {
        if null_or_empty {
            return None;
        }
        let calls = self.total_calls.wrapping_add(1);
        self.total_calls = calls;
        let big = size >= ALWAYS_LOG_SIZE;
        if !big {
            match self.seen.as_mut() {
                None => {
                    self.seen = Some(HashSet::new());
                },
                Some(seen) => {
                    if seen.len() >= MAX_SEEN_SIZES {
                        return None;
                    }
                    if !seen.insert(size) {
                        return None;
                    }
                },
            }
        }
        if self.logged_lines >= MAX_LOGGED_LINES {
            return None;
        }
        self.logged_lines = self.logged_lines + 1;
        Some(calls)
    }
}

/// The hook goes on the loader only when its signature matched exactly once.
pub fn single_match(matches: &[u64]) -> (r: Option<u64>)
    ensures
        r == (if matches@.len() == 1 {
            Some(matches@[0])
        } else {
            None
        }),
{
    if matches.len() == 1 {
        Some(matches[0])
    } else {
        None
    }
}

} // verus!

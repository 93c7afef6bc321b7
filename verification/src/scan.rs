//! Code signatures: a signature is compiled with `pelite`'s pattern parser
//! into the atoms the host scans the game's code with, and the save slot that
//! holds the reported address (slot 0, the match start, or slot 1, the target
//! of a trailing relative call marked `e8 $ '`).

use vstd::prelude::*;
use pelite::pattern::{Atom, ParsePatError};
use crate::text::str_chars;

verus! {

#[verifier::external_type_specification]
#[verifier::external_body]
pub struct ExAtom(Atom);

#[verifier::external_type_specification]
#[verifier::external_body]
pub struct ExParsePatError(ParsePatError);

/// Whether `pelite`'s pattern syntax accepts the signature text `pat`.
pub uninterp spec fn pattern_parses(pat: Seq<char>) -> bool;

/// The atoms `pelite`'s pattern parser compiles the signature text `pat` to.
pub uninterp spec fn parsed_atoms(pat: Seq<char>) -> Seq<Atom>;

/// The number of `{` in a signature: the parser's nesting depth never
/// exceeds it.
pub open spec fn brace_count(s: Seq<char>) -> nat
    decreases s.len(),
{
    if s.len() == 0 {
        0
    } else {
        brace_count(s.drop_last()) + if s.last() == '{' { 1nat } else { 0nat }
    }
}

/// The deepest nesting `pelite`'s parser keeps count of (in a `u8`).
pub const MAX_NESTING: usize = 255;

/// `pelite::pattern::parse`: compiles a signature into pattern atoms. Whether
/// it succeeds, and the atoms it gives, depend on the text alone. The parser
/// counts the nesting depth of `{` in a `u8`, which overflows (a panic in a
/// debug build) past 255, so texts with more `{` than that are not passed.
#[verifier::external_body]
fn parse_pattern(pat: &str) -> (r: Result<Vec<Atom>, ParsePatError>)
    requires
        brace_count(pat@) <= MAX_NESTING,
    ensures
        r is Ok == pattern_parses(pat@),
        r matches Ok(v) ==> v@ == parsed_atoms(pat@),
{
    pelite::pattern::parse(pat)
}

/// Counts the `{` of a signature.
pub fn count_braces(pat: &str) -> (n: usize)
    ensures
        n == brace_count(pat@),
{
    let cs = str_chars(pat);
    let mut n: usize = 0;
    let mut i: usize = 0;
    while i < cs.len()
        invariant
            i <= cs.len(),
            cs@ == pat@,
            n == brace_count(cs@.take(i as int)),
            n <= i,
        decreases cs.len() - i,
    {
        assert(cs@.take(i + 1).drop_last() =~= cs@.take(i as int));
        if cs[i] == '{' {
            n = n + 1;
        }
        i = i + 1;
    }
    assert(cs@.take(cs.len() as int) =~= cs@);
    n
}

/// Why a signature cannot be scanned.
#[derive(Clone, Copy, Debug, PartialEq, Eq, Structural)]
pub enum ScanError {
    /// The signature does not parse.
    BadPattern,
    /// The signature nests `{` deeper than the parser can count.
    TooDeep,
}

/// A compiled scan: the atoms, the number of save slots to pass to the
/// scanner, and the slot whose value is the reported address.
pub struct ScanPlan {
    pub atoms: Vec<Atom>,
    pub captures: usize,
    pub slot: usize,
}

/// Compiles `pattern` for a scan reporting the match start, or, with
/// `call_target`, the target of the trailing relative call.
pub fn plan_scan(pattern: &str, call_target: bool) -> (r: Result<ScanPlan, ScanError>)
    ensures
        brace_count(pattern@) > MAX_NESTING ==> r == Err::<ScanPlan, ScanError>(ScanError::TooDeep),
        brace_count(pattern@) <= MAX_NESTING ==> (r is Ok == pattern_parses(pattern@)),
        brace_count(pattern@) <= MAX_NESTING && r is Err ==> r == Err::<ScanPlan, ScanError>(
            ScanError::BadPattern,
        ),
        r matches Ok(p) ==> {
            &&& p.atoms@ == parsed_atoms(pattern@)
            &&& p.slot == (if call_target {
                1usize
            } else {
                0usize
            })
            &&& p.captures == p.slot + 1
        },
{
    if count_braces(pattern) > MAX_NESTING {
        return Err(ScanError::TooDeep);
    }
    match parse_pattern(pattern) {
        Ok(atoms) => {
            let slot: usize = if call_target {
                1
            } else {
                0
            };
            Ok(ScanPlan { atoms, captures: slot + 1, slot })
        },
        Err(_) => Err(ScanError::BadPattern),
    }
}

} // verus!

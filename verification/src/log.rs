//! The log file's line format: the library hands back each line, the host
//! appends it to `logs/erqol.log` next to the DLL and ignores write failures.

use vstd::prelude::*;
use crate::text::{str_chars, string_from_chars};

verus! {

/// The line written to the log for `msg`: the message and a newline.
pub fn log(msg: &str) -> (line: String)
    ensures
        line@ == msg@.push('\n'),
{
    let mut out = str_chars(msg);
    out.push('\n');
    string_from_chars(out.as_slice())
}

} // verus!

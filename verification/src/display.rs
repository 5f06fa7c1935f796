//! Display helpers for progress lines.

use vstd::prelude::*;

verus! {

/// A line cut for display: its first `max_len` characters with an ellipsis
/// appended when it is longer than that, the line itself otherwise.
pub open spec fn truncate_spec(line: Seq<char>, max_len: int) -> Seq<char> {
    if line.len() > max_len {
        line.subrange(0, max_len) + "..."@
    } else {
        line
    }
}

/// Truncate a line for display, adding an ellipsis if it is too long.
pub fn truncate_line(line: &str, max_len: usize) -> (r: String)
    ensures
        r@ == truncate_spec(line@, max_len as int),
{
    let n = line.unicode_len();
    if n > max_len {
        let head = line.substring_char(0, max_len);
        let mut out = String::from_str(head);
        out.append("...");
        out
    } else {
        String::from_str(line)
    }
}

} // verus!

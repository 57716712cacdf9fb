//! The breakpoint at the start of the main function.
//!
//! It is not set on the line of the signature, which is no statement and may not
//! bind, but on the first statement of the body, where that is known.

use crate::text::{chars_of, contains, lines, lines_of, occurs, string_of, texts};
use vstd::prelude::*;

verus! {

/// Whether a line holds the signature of a main function.
pub open spec fn main_signature(line: Seq<char>) -> bool {
    occurs(line, "int main("@) || occurs(line, "void main("@)
}

/// Where the first line stands that holds the signature of a main function, or
/// how many lines there are.
pub open spec fn signature_place(list: Seq<Seq<char>>) -> nat
    decreases list.len(),
{
    if list.len() == 0 || main_signature(list[0]) {
        0
    } else {
        1 + signature_place(list.skip(1))
    }
}

/// The row of the first line of `text` that holds the signature of a main
/// function. Rows are counted from 0, by 32 bits.
pub fn signature_row(text: &str) -> (row: Option<u32>)
    ensures
        row == if signature_place(lines(text@)) < lines(text@).len() {
            Some(signature_place(lines(text@)) as u32)
        } else {
            None
        },
{
    let list = lines_of(&chars_of(text));
    let ghost all = texts(list@);
    assert(all.skip(0) =~= all);
    for i in 0..list.len()
        invariant
            all == texts(list@),
            all == lines(text@),
            signature_place(all) == i + signature_place(all.skip(i as int)),
    {
        assert(all.skip(i as int)[0] == list@[i as int]@);
        assert(all.skip(i as int).skip(1) =~= all.skip(i + 1));
        let line = string_of(&list[i]);
        if contains(line.as_str(), "int main(") || contains(line.as_str(), "void main(") {
            return Some(
                #[verifier::truncate]
                (i as u32),
            );
        }
    }
    None
}

/// The row of the breakpoint: that of the first statement, or that of the
/// signature where the first statement is not known.
pub open spec fn wanted_row(signature: u32, statement: Option<u32>) -> u32 {
    match statement {
        Some(row) => row,
        None => signature,
    }
}

/// The row of the breakpoint.
pub fn breakpoint_row(signature: u32, statement: Option<u32>) -> (row: u32)
    ensures
        row == wanted_row(signature, statement),
{
    match statement {
        Some(row) => row,
        None => signature,
    }
}

/// What is done about breakpoints: each of these toggles the breakpoint of one
/// row.
#[derive(Debug, PartialEq, Eq, Clone, Copy)]
pub struct BreakpointEdits {
    /// Whether the breakpoint of the signature is cleared.
    pub clear_signature: bool,
    /// Whether the breakpoint is set.
    pub set_row: bool,
}

/// What is to be done so that `row` has a breakpoint and the signature, if it is
/// in another row, has none. Given is whether each of the two has one now.
pub fn breakpoint_edits(
    signature: u32,
    row: u32,
    signature_marked: bool,
    row_marked: bool,
) -> (edits: BreakpointEdits)
    ensures
        edits.clear_signature == (row != signature && signature_marked),
        edits.set_row == !row_marked,
{
    BreakpointEdits {
        clear_signature: row != signature && signature_marked,
        set_row: !row_marked,
    }
}

/// The rows with breakpoints after that of one row was toggled.
pub open spec fn toggled(marks: Set<u32>, row: u32) -> Set<u32> {
    if marks.contains(row) {
        marks.remove(row)
    } else {
        marks.insert(row)
    }
}

/// The rows with breakpoints after some edits.
pub open spec fn edited(
    marks: Set<u32>,
    signature: u32,
    row: u32,
    edits: BreakpointEdits,
) -> Set<u32> {
    let cleared = if edits.clear_signature {
        toggled(marks, signature)
    } else {
        marks
    };
    if edits.set_row {
        toggled(cleared, row)
    } else {
        cleared
    }
}

/// Whether these are the edits that [`breakpoint_edits`] gives for `marks`.
pub open spec fn edits_for(
    marks: Set<u32>,
    signature: u32,
    row: u32,
    edits: BreakpointEdits,
) -> bool {
    &&& edits.clear_signature == (row != signature && marks.contains(signature))
    &&& edits.set_row == !marks.contains(row)
}

/// After the edits the row has a breakpoint, the signature has none unless it is
/// that row, and all other rows are as they were. Then there is nothing left to
/// be done.
pub proof fn law_breakpoint_is_set_once(
    marks: Set<u32>,
    signature: u32,
    row: u32,
    edits: BreakpointEdits,
    again: BreakpointEdits,
)
    requires
        edits_for(marks, signature, row, edits),
        edits_for(edited(marks, signature, row, edits), signature, row, again),
    ensures
        edited(marks, signature, row, edits).contains(row),
        row != signature ==> !edited(marks, signature, row, edits).contains(signature),
        forall|other: u32|
            other != row && other != signature ==> (#[trigger] edited(
                marks,
                signature,
                row,
                edits,
            ).contains(other) == marks.contains(other)),
        !again.clear_signature,
        !again.set_row,
{
}

} // verus!

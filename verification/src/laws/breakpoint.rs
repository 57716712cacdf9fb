//! Where the breakpoint is set.

use crate::breakpoint::{edited, edits_for, main_signature, signature_place, wanted_row,
    BreakpointEdits};
use crate::laws::text::{has_part, law_occurring_is_being_a_part};
use vstd::prelude::*;

verus! {

/// A line holds the signature of a main function if and only if `int main(` or
/// `void main(` is a part of it.
pub proof fn law_signature_of_main(line: Seq<char>)
    ensures
        main_signature(line) <==> has_part(line, "int main("@) || has_part(line, "void main("@),
{
    law_occurring_is_being_a_part(line, "int main("@);
    law_occurring_is_being_a_part(line, "void main("@);
}

/// The signature is found in the first line that holds one, and nowhere if none does.
pub proof fn law_first_signature_counts(list: Seq<Seq<char>>)
    ensures
        signature_place(list) <= list.len(),
        signature_place(list) < list.len() ==> main_signature(list[signature_place(list) as int]),
        forall|j: int| 0 <= j < signature_place(list) ==> !main_signature(#[trigger] list[j]),
    decreases list.len(),
{
    if list.len() > 0 && !main_signature(list[0]) {
        let rest = list.skip(1);
        law_first_signature_counts(rest);
        let n = signature_place(rest) as int;
        if n < rest.len() {
            assert(list[n + 1] == rest[n]);
        }
        assert forall|j: int| 0 <= j < signature_place(list) implies !main_signature(
            #[trigger] list[j],
        ) by {
            if j > 0 {
                assert(list[j] == rest[j - 1]);
            }
        }
    }
}

/// The breakpoint stands at the first statement where that is known, and at the
/// signature where it is not.
pub proof fn law_row_of_the_breakpoint(signature: u32, statement: u32)
    ensures
        wanted_row(signature, Some(statement)) == statement,
        wanted_row(signature, None) == signature,
{
}

/// The edits add the row, take the signature away where it is another row, and change
/// nothing else.
pub proof fn law_edited_breakpoints(
    marks: Set<u32>,
    signature: u32,
    row: u32,
    edits: BreakpointEdits,
)
    requires
        edits.clear_signature == (row != signature && marks.contains(signature)),
        edits.set_row == !marks.contains(row),
    ensures
        edits_for(marks, signature, row, edits),
        edited(marks, signature, row, edits) =~= marks.remove(signature).insert(row),
{
}

} // verus!

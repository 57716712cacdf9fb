use embedded_support::breakpoint::{
    breakpoint_edits, breakpoint_row, signature_row, BreakpointEdits,
};
use std::collections::BTreeSet;

#[test]
fn the_signature_is_found() {
    assert_eq!(signature_row("#include <x.h>\n\nint main(void)\n{\n}\n"), Some(2));
    assert_eq!(signature_row("static void main(void) {}"), Some(0));
    assert_eq!(signature_row("// int main(\nint main() {}"), Some(0));
    assert_eq!(signature_row("int main ()\n"), None);
    assert_eq!(signature_row(""), None);
    assert_eq!(signature_row("a\r\nvoid main()\r\n"), Some(1));
}

#[test]
fn the_first_statement_is_wanted() {
    assert_eq!(breakpoint_row(2, Some(5)), 5);
    assert_eq!(breakpoint_row(2, None), 2);
}

#[test]
fn edits_by_what_is_marked() {
    let edits = |clear_signature, set_row| BreakpointEdits { clear_signature, set_row };
    assert_eq!(breakpoint_edits(2, 5, true, false), edits(true, true));
    assert_eq!(breakpoint_edits(2, 5, true, true), edits(true, false));
    assert_eq!(breakpoint_edits(2, 5, false, false), edits(false, true));
    assert_eq!(breakpoint_edits(2, 5, false, true), edits(false, false));
    assert_eq!(breakpoint_edits(2, 2, true, true), edits(false, false));
    assert_eq!(breakpoint_edits(2, 2, false, false), edits(false, true));
}

fn toggle(marks: &mut BTreeSet<u32>, row: u32) {
    if !marks.remove(&row) {
        marks.insert(row);
    }
}

#[test]
fn the_breakpoint_is_set_once() {
    for (signature, row) in [(2, 5), (2, 2)] {
        for start in [vec![], vec![2], vec![5], vec![2, 5], vec![9, 2]] {
            let mut marks: BTreeSet<u32> = start.into_iter().collect();
            let other = marks.contains(&9);
            for _ in 0..2 {
                let edits = breakpoint_edits(
                    signature,
                    row,
                    marks.contains(&signature),
                    marks.contains(&row),
                );
                if edits.clear_signature {
                    toggle(&mut marks, signature);
                }
                if edits.set_row {
                    toggle(&mut marks, row);
                }
                assert!(marks.contains(&row));
                assert!(row == signature || !marks.contains(&signature));
                assert_eq!(marks.contains(&9), other);
            }
        }
    }
}

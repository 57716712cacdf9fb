//! Which labels are read from `.zed/tasks.json`.

use crate::json::JsonView;
use crate::json_text::json_parsed;
use crate::tasks::{labels, labels_in, task_entries};
use vstd::prelude::*;

verus! {

/// A task has the label that its field `label` says, and one without such a string is
/// passed over.
pub proof fn law_label_of_one_task(task: JsonView, label: Seq<char>)
    ensures
        labels(Seq::empty()).len() == 0,
        task.get("label"@) == Some(JsonView::Text(label)) ==> labels(seq![task]) == seq![label],
        !(task.get("label"@) matches Some(found) && found is Text) ==> labels(seq![task]).len()
            == 0,
{
    let one = seq![task];
    assert(one.drop_last() =~= Seq::empty());
    assert(labels(one.drop_last()).len() == 0);
    if task.get("label"@) == Some(JsonView::Text(label)) {
        assert(labels(one) =~= seq![label]);
    }
}

/// The labels of tasks are read one after the other, in their order.
pub proof fn law_labels_in_order(a: Seq<JsonView>, b: Seq<JsonView>)
    ensures
        labels(a + b) == labels(a) + labels(b),
    decreases b.len(),
{
    if b.len() == 0 {
        assert(a + b =~= a);
        assert(labels(a) + labels(b) =~= labels(a));
    } else {
        assert((a + b).drop_last() =~= a + b.drop_last());
        assert((a + b).last() == b.last());
        law_labels_in_order(a, b.drop_last());
        assert(labels(a + b) =~= labels(a) + labels(b));
    }
}

/// The tasks are the document itself, if that is a list, or its field `tasks`, if that
/// is one. Without the file, or where it is no document, there are none.
pub proof fn law_tasks_are_listed(doc: JsonView, items: Seq<JsonView>, text: String)
    ensures
        task_entries(JsonView::Array(items)) == items,
        !(doc is Array) && doc.get("tasks"@) == Some(JsonView::Array(items)) ==> task_entries(doc)
            == items,
        !(doc is Array) && !(doc.get("tasks"@) matches Some(list) && list is Array)
            ==> task_entries(doc).len() == 0,
        json_parsed(text@) == Some(doc) ==> labels_in(Some(text)) == labels(task_entries(doc)),
        json_parsed(text@) is None ==> labels_in(Some(text)).len() == 0,
        labels_in(None).len() == 0,
{
}

} // verus!

//! What the buttons of the status bar show and do.

use crate::debug::EMBEDDED_ADAPTER;
use crate::laws::lemma_first_place;
use crate::laws::text::{has_part, law_occurring_is_being_a_part};
use crate::status_buttons::{
    all_buttons, chosen, first_label, first_place, ButtonIcon, ButtonsView, EmbeddedButtons, Press,
    ScenarioChoice, TaskKind, MISSING_ADAPTER,
};
use vstd::prelude::*;

verus! {

/// A build task is one whose label ends in `: build`, and a flash task one whose label
/// holds `flash` or `download`.
pub proof fn law_kinds_of_tasks(label: Seq<char>)
    ensures
        TaskKind::Build.accepts(label) <==> ": build"@.is_suffix_of(label),
        TaskKind::Flash.accepts(label) <==> has_part(label, "flash"@) || has_part(
            label,
            "download"@,
        ),
{
    law_occurring_is_being_a_part(label, "flash"@);
    law_occurring_is_being_a_part(label, "download"@);
    law_occurring_is_being_a_part(label, ": build"@);
    if label == "stm32: build"@ {
        reveal_strlit(": build");
        reveal_strlit("stm32: build");
        assert(": build"@ =~= label.subrange(5, 12));
    }
}

/// A button runs the first task of its kind, if there is one.
pub proof fn law_first_task_of_the_kind(labels: Seq<Seq<char>>, kind: TaskKind)
    ensures
        first_label(labels, kind) is Some <==> exists|i: int|
            0 <= i < labels.len() && kind.accepts(#[trigger] labels[i]),
        first_label(labels, kind) matches Some(label) ==> exists|i: int|
            {
                &&& 0 <= i < labels.len()
                &&& #[trigger] labels[i] == label
                &&& kind.accepts(label)
                &&& forall|j: int| 0 <= j < i ==> !kind.accepts(#[trigger] labels[j])
            },
    decreases labels.len(),
{
    if labels.len() > 0 {
        if kind.accepts(labels[0]) {
            assert(labels[0] == first_label(labels, kind)->0);
        } else {
            let rest = labels.skip(1);
            law_first_task_of_the_kind(rest, kind);
            if exists|i: int| 0 <= i < labels.len() && kind.accepts(#[trigger] labels[i]) {
                let i = choose|i: int| 0 <= i < labels.len() && kind.accepts(#[trigger] labels[i]);
                assert(rest[i - 1] == labels[i]);
            }
            if let Some(label) = first_label(labels, kind) {
                let i = choose|i: int|
                    {
                        &&& 0 <= i < rest.len()
                        &&& #[trigger] rest[i] == label
                        &&& kind.accepts(label)
                        &&& forall|j: int| 0 <= j < i ==> !kind.accepts(#[trigger] rest[j])
                    };
                assert(labels[i + 1] == label);
                assert forall|j: int| 0 <= j < i + 1 implies !kind.accepts(
                    #[trigger] labels[j],
                ) by {
                    if j > 0 {
                        assert(rest[j - 1] == labels[j]);
                    }
                }
            }
        }
    }
}

/// After a look at the project the buttons are shown if and only if it is an embedded
/// one, with the first build and the first flash task; hidden ones keep their tasks.
pub proof fn law_refreshed_buttons(old_buttons: ButtonsView, labels: Seq<Seq<char>>)
    ensures
        old_buttons.refreshed(true, labels).visible,
        old_buttons.refreshed(true, labels).build_task == first_label(labels, TaskKind::Build),
        old_buttons.refreshed(true, labels).flash_task == first_label(labels, TaskKind::Flash),
        !old_buttons.refreshed(false, labels).visible,
        old_buttons.refreshed(false, labels).build_task == old_buttons.build_task,
        old_buttons.refreshed(false, labels).flash_task == old_buttons.flash_task,
{
}

/// The value of the buttons is made of their own fields.
pub proof fn law_values_of_buttons(buttons: EmbeddedButtons)
    ensures
        buttons@.visible == buttons.visible,
        buttons.build_task matches Some(label) ==> buttons@.build_task == Some(label@),
        buttons.build_task is None ==> buttons@.build_task is None,
        buttons.flash_task matches Some(label) ==> buttons@.flash_task == Some(label@),
        buttons.flash_task is None ==> buttons@.flash_task is None,
{
}

/// There are three buttons: the hammer runs the build task, the bolt the flash task,
/// and the last one debugs.
pub proof fn law_three_buttons(build_task: Option<String>, flash_task: Option<String>)
    ensures
        ({
            let shown = all_buttons(build_task, flash_task);
            &&& shown.len() == 3
            &&& shown[0].id == "embedded-build"
            &&& shown[0].icon == ButtonIcon::ToolHammer
            &&& shown[0].tooltip == "嵌入式编译（点击执行构建任务）"
            &&& shown[0].press == Press::Task(build_task)
            &&& shown[1].id == "embedded-flash"
            &&& shown[1].icon == ButtonIcon::BoltFilled
            &&& shown[1].tooltip == "嵌入式烧录（下载固件到目标板）"
            &&& shown[1].press == Press::Task(flash_task)
            &&& shown[2].id == "embedded-debug"
            &&& shown[2].icon == ButtonIcon::Debug
            &&& shown[2].tooltip == "嵌入式调试（编译 → 烧录 → 挂起）"
            &&& shown[2].press == Press::Debug
        }),
{
}

/// The debug button starts, of the scenarios of the embedded adapter, the first that
/// was started lately, or the first of the file where none was. Without any of these
/// it starts the first of all, those that were started lately before those of the
/// file.
pub proof fn law_which_scenario_is_started(recent: Seq<Seq<char>>, from_file: Seq<Seq<char>>, i: int)
    requires
        recent.len() <= usize::MAX,
        from_file.len() <= usize::MAX,
    ensures
        0 <= i < recent.len() && recent[i] == "yz61-embedded"@ && (forall|j: int|
            0 <= j < i ==> #[trigger] recent[j] != "yz61-embedded"@) ==> chosen(recent, from_file)
            == Some(ScenarioChoice::Recent(i as usize)),
        !recent.contains("yz61-embedded"@) && 0 <= i < from_file.len() && from_file[i]
            == "yz61-embedded"@ && (forall|j: int|
            0 <= j < i ==> #[trigger] from_file[j] != "yz61-embedded"@) ==> chosen(
            recent,
            from_file,
        ) == Some(ScenarioChoice::FromFile(i as usize)),
        !recent.contains("yz61-embedded"@) && !from_file.contains("yz61-embedded"@)
            && recent.len() > 0 ==> chosen(recent, from_file) == Some(ScenarioChoice::Recent(0)),
        recent.len() == 0 && !from_file.contains("yz61-embedded"@) && from_file.len() > 0
            ==> chosen(recent, from_file) == Some(ScenarioChoice::FromFile(0)),
        recent.len() == 0 && from_file.len() == 0 ==> chosen(recent, from_file) is None,
{
    let wanted = "yz61-embedded"@;
    lemma_first_place(recent, wanted);
    lemma_first_place(from_file, wanted);
    let n = first_place(recent, wanted) as int;
    let m = first_place(from_file, wanted) as int;
    if n < recent.len() {
        assert(recent.contains(recent[n]));
    }
    if m < from_file.len() {
        assert(from_file.contains(from_file[m]));
    }
    if 0 <= i < recent.len() && recent[i] == wanted && (forall|j: int|
        0 <= j < i ==> #[trigger] recent[j] != wanted) {
        if n < i {
            assert(recent[n] != wanted);
        }
        assert(n == i);
    }
    if 0 <= i < from_file.len() && from_file[i] == wanted && (forall|j: int|
        0 <= j < i ==> #[trigger] from_file[j] != wanted) {
        if m < i {
            assert(from_file[m] != wanted);
        }
        assert(m == i);
    }
}

/// What is said when the debug adapter is missing, and which adapter that is.
pub proof fn law_missing_adapter()
    ensures
        MISSING_ADAPTER@
            == "未找到 yz61-embedded 调试适配器：请打开扩展面板，对 yz61-embedded 执行 Reinstall Dev Extension 后重试"@,
        EMBEDDED_ADAPTER@ == "yz61-embedded"@,
{
}

} // verus!

//! The buttons of the status bar: build, flash and debug. They are shown for
//! embedded projects only.

use crate::debug::EMBEDDED_ADAPTER;
use crate::presets::optional_text;
use crate::project::{embedded, is_embedded_project, ProjectFiles};
use crate::tasks::{labels_in, read_tasks_labels};
use crate::text::{contains, ends_with, has_suffix, occurs, same_text, strings};
use vstd::prelude::*;

verus! {

/// What a task must be good for to be run by a button.
#[derive(Debug, PartialEq, Eq, Clone, Copy)]
pub enum TaskKind {
    Build,
    Flash,
}

impl TaskKind {
    /// Whether a task with this label is one of the kind: a build task is called
    /// `<something>: build`, and a flash task speaks of flashing or downloading.
    pub open spec fn accepts(self, label: Seq<char>) -> bool {
        match self {
            TaskKind::Build => ends_with(label, ": build"@) || label == "stm32: build"@,
            TaskKind::Flash => occurs(label, "flash"@) || occurs(label, "download"@),
        }
    }

    /// Whether a task with this label is one of the kind.
    pub fn fits(self, label: &str) -> (yes: bool)
        ensures
            yes == self.accepts(label@),
    {
        match self {
            TaskKind::Build => has_suffix(label, ": build") || same_text(label, "stm32: build"),
            TaskKind::Flash => contains(label, "flash") || contains(label, "download"),
        }
    }
}

/// The first label of the kind.
pub open spec fn first_label(labels: Seq<Seq<char>>, kind: TaskKind) -> Option<Seq<char>>
    decreases labels.len(),
{
    if labels.len() == 0 {
        None
    } else if kind.accepts(labels[0]) {
        Some(labels[0])
    } else {
        first_label(labels.skip(1), kind)
    }
}

/// The first label of the kind.
pub fn find_label(labels: &Vec<String>, kind: TaskKind) -> (label: Option<String>)
    ensures
        optional_text(label) == first_label(strings(labels@), kind),
{
    let ghost all = strings(labels@);
    assert(all.skip(0) =~= all);
    for i in 0..labels.len()
        invariant
            all == strings(labels@),
            first_label(all, kind) == first_label(all.skip(i as int), kind),
    {
        assert(all.skip(i as int)[0] == labels@[i as int]@);
        assert(all.skip(i as int).skip(1) =~= all.skip(i + 1));
        if kind.fits(labels[i].as_str()) {
            return Some(labels[i].clone());
        }
    }
    None
}

/// Whether two labels are the same, or both are missing.
fn same_label(a: &Option<String>, b: &Option<String>) -> (same: bool)
    ensures
        same == (optional_text(*a) == optional_text(*b)),
{
    match (a, b) {
        (Some(a), Some(b)) => same_text(a.as_str(), b.as_str()),
        (None, None) => true,
        _ => false,
    }
}

/// What a button does when it is pressed.
#[derive(Debug, PartialEq, Eq)]
pub enum Press {
    /// Runs the task with this label, or lets the user choose one.
    Task(Option<String>),
    /// Starts a debug session.
    Debug,
}

/// The picture on a button.
#[derive(Debug, PartialEq, Eq, Clone, Copy)]
pub enum ButtonIcon {
    ToolHammer,
    BoltFilled,
    Debug,
}

/// A button.
#[derive(Debug, PartialEq, Eq)]
pub struct Button {
    pub id: &'static str,
    pub icon: ButtonIcon,
    pub tooltip: &'static str,
    pub press: Press,
}

/// How a task is started.
#[derive(Debug, PartialEq, Eq)]
pub enum Spawn {
    ByName { task_name: String },
    ViaModal,
}

/// What is done when the debug button is pressed.
#[derive(Debug, PartialEq, Eq)]
pub enum DebugAction {
    /// An error is shown.
    ShowError(&'static str),
    /// The user chooses what to debug.
    OpenPicker,
    /// The scenarios are to be listed.
    ListScenarios,
}

/// What is done once the scenarios are listed.
#[derive(Debug, PartialEq, Eq, Clone, Copy)]
pub enum ScenarioAction {
    /// The user chooses what to debug.
    OpenPicker,
    /// A breakpoint is set in the main function, then the scenario is started.
    Launch(ScenarioChoice),
}

/// One of the scenarios that were listed, by its place in its list.
#[derive(Debug, PartialEq, Eq, Clone, Copy)]
pub enum ScenarioChoice {
    /// One that was started lately.
    Recent(usize),
    /// One of `debug.json`.
    FromFile(usize),
}

/// The adapters of the scenarios that were listed.
#[derive(Debug, PartialEq, Eq)]
pub struct ScenarioLists {
    /// Of the scenarios that were started lately.
    pub recent: Vec<String>,
    /// Of the scenarios in `debug.json`.
    pub from_file: Vec<String>,
}

/// What is said when the extension with the debug adapter is not loaded.
pub const MISSING_ADAPTER: &'static str =
    "未找到 yz61-embedded 调试适配器：请打开扩展面板，对 yz61-embedded 执行 Reinstall Dev Extension 后重试";

/// Where `wanted` first stands in `list`, or the length of `list`.
pub open spec fn first_place(list: Seq<Seq<char>>, wanted: Seq<char>) -> nat
    decreases list.len(),
{
    if list.len() == 0 || list[0] == wanted {
        0
    } else {
        1 + first_place(list.skip(1), wanted)
    }
}

/// The scenario to start: one of the embedded adapter before any other, and of
/// these one that was started lately before one of `debug.json`.
pub open spec fn chosen(recent: Seq<Seq<char>>, from_file: Seq<Seq<char>>) -> Option<
    ScenarioChoice,
> {
    let wanted = EMBEDDED_ADAPTER@;
    if first_place(recent, wanted) < recent.len() {
        Some(ScenarioChoice::Recent(first_place(recent, wanted) as usize))
    } else if first_place(from_file, wanted) < from_file.len() {
        Some(ScenarioChoice::FromFile(first_place(from_file, wanted) as usize))
    } else if recent.len() > 0 {
        Some(ScenarioChoice::Recent(0))
    } else if from_file.len() > 0 {
        Some(ScenarioChoice::FromFile(0))
    } else {
        None
    }
}

/// Where `wanted` first stands in `list`, or the length of `list`.
fn find_place(list: &Vec<String>, wanted: &str) -> (at: usize)
    ensures
        at == first_place(strings(list@), wanted@),
        at <= list@.len(),
{
    let ghost all = strings(list@);
    assert(all.skip(0) =~= all);
    for i in 0..list.len()
        invariant
            all == strings(list@),
            first_place(all, wanted@) == i + first_place(all.skip(i as int), wanted@),
    {
        assert(all.skip(i as int)[0] == list@[i as int]@);
        assert(all.skip(i as int).skip(1) =~= all.skip(i + 1));
        if same_text(list[i].as_str(), wanted) {
            return i;
        }
    }
    list.len()
}

/// The scenario to start, if any was listed.
pub fn choose_scenario(recent: &Vec<String>, from_file: &Vec<String>) -> (choice: Option<
    ScenarioChoice,
>)
    ensures
        choice == chosen(strings(recent@), strings(from_file@)),
{
    let at = find_place(recent, EMBEDDED_ADAPTER);
    if at < recent.len() {
        return Some(ScenarioChoice::Recent(at));
    }
    let at = find_place(from_file, EMBEDDED_ADAPTER);
    if at < from_file.len() {
        return Some(ScenarioChoice::FromFile(at));
    }
    if recent.len() > 0 {
        Some(ScenarioChoice::Recent(0))
    } else if from_file.len() > 0 {
        Some(ScenarioChoice::FromFile(0))
    } else {
        None
    }
}

/// The three buttons, from left to right, with the tasks that they run.
pub open spec fn all_buttons(build_task: Option<String>, flash_task: Option<String>) -> Seq<
    Button,
> {
    seq![
        Button {
            id: "embedded-build",
            icon: ButtonIcon::ToolHammer,
            tooltip: "嵌入式编译（点击执行构建任务）",
            press: Press::Task(build_task),
        },
        Button {
            id: "embedded-flash",
            icon: ButtonIcon::BoltFilled,
            tooltip: "嵌入式烧录（下载固件到目标板）",
            press: Press::Task(flash_task),
        },
        Button {
            id: "embedded-debug",
            icon: ButtonIcon::Debug,
            tooltip: "嵌入式调试（编译 → 烧录 → 挂起）",
            press: Press::Debug,
        },
    ]
}

/// The buttons: whether they are shown, and the tasks that two of them run.
#[derive(Debug, PartialEq, Eq)]
pub struct EmbeddedButtons {
    pub visible: bool,
    pub build_task: Option<String>,
    pub flash_task: Option<String>,
}

/// The mathematical value of [`EmbeddedButtons`].
pub struct ButtonsView {
    pub visible: bool,
    pub build_task: Option<Seq<char>>,
    pub flash_task: Option<Seq<char>>,
}

impl View for EmbeddedButtons {
    type V = ButtonsView;

    open spec fn view(&self) -> ButtonsView {
        ButtonsView {
            visible: self.visible,
            build_task: optional_text(self.build_task),
            flash_task: optional_text(self.flash_task),
        }
    }
}

impl ButtonsView {
    /// The buttons after the project was looked at: they are shown if it is an
    /// embedded one, and then run the first tasks of their kinds. The tasks stay
    /// as they are while the buttons are hidden.
    pub open spec fn refreshed(self, visible: bool, labels: Seq<Seq<char>>) -> ButtonsView {
        if visible {
            ButtonsView {
                visible,
                build_task: first_label(labels, TaskKind::Build),
                flash_task: first_label(labels, TaskKind::Flash),
            }
        } else {
            ButtonsView { visible, ..self }
        }
    }
}

impl EmbeddedButtons {
    /// Hidden buttons, without tasks.
    pub fn new() -> (buttons: EmbeddedButtons)
        ensures
            buttons@ == (ButtonsView { visible: false, build_task: None, flash_task: None }),
    {
        EmbeddedButtons { visible: false, build_task: None, flash_task: None }
    }

    /// Takes up whether the project is an embedded one, and the labels of its
    /// tasks. The result is whether anything changed.
    pub fn update(&mut self, visible: bool, labels: &Vec<String>) -> (changed: bool)
        ensures
            final(self)@ == old(self)@.refreshed(visible, strings(labels@)),
            changed == (final(self)@ != old(self)@),
    {
        let mut changed = self.visible != visible;
        if visible {
            let build_task = find_label(labels, TaskKind::Build);
            let flash_task = find_label(labels, TaskKind::Flash);
            changed = changed || !same_label(&self.build_task, &build_task) || !same_label(
                &self.flash_task,
                &flash_task,
            );
            self.build_task = build_task;
            self.flash_task = flash_task;
        }
        self.visible = visible;
        changed
    }

    /// Looks at the project again: at the files by which it is recognised, and at
    /// the text of `tasks.json`. The result is whether anything changed, so that
    /// the buttons are to be drawn again.
    pub fn refresh(&mut self, files: &ProjectFiles, tasks_text: &Option<String>) -> (changed: bool)
        ensures
            final(self)@ == old(self)@.refreshed(embedded(*files), labels_in(*tasks_text)),
            changed == (final(self)@ != old(self)@),
    {
        let visible = is_embedded_project(files);
        let labels = if visible {
            read_tasks_labels(tasks_text)
        } else {
            Vec::new()
        };
        self.update(visible, &labels)
    }

    /// How a task is started: by its label, or chosen by the user where there is
    /// none.
    pub fn dispatch_task(label: Option<String>) -> (spawn: Spawn)
        ensures
            match label {
                Some(name) => spawn == (Spawn::ByName { task_name: name }),
                None => spawn == Spawn::ViaModal,
            },
    {
        match label {
            Some(task_name) => Spawn::ByName { task_name },
            None => Spawn::ViaModal,
        }
    }

    /// What pressing the debug button starts: an error where the adapter is not
    /// registered, and the picker where there is no provider of debug sessions.
    pub fn on_debug(adapter_registered: bool, has_provider: bool) -> (action: DebugAction)
        ensures
            action == if !adapter_registered {
                DebugAction::ShowError(MISSING_ADAPTER)
            } else if !has_provider {
                DebugAction::OpenPicker
            } else {
                DebugAction::ListScenarios
            },
    {
        if !adapter_registered {
            DebugAction::ShowError(MISSING_ADAPTER)
        } else if !has_provider {
            DebugAction::OpenPicker
        } else {
            DebugAction::ListScenarios
        }
    }

    /// What is done once the scenarios are listed: the picker is opened where
    /// there are none, and else one is started.
    pub fn on_scenarios(lists: &ScenarioLists) -> (action: ScenarioAction)
        ensures
            action == match chosen(strings(lists.recent@), strings(lists.from_file@)) {
                Some(choice) => ScenarioAction::Launch(choice),
                None => ScenarioAction::OpenPicker,
            },
    {
        match choose_scenario(&lists.recent, &lists.from_file) {
            Some(choice) => ScenarioAction::Launch(choice),
            None => ScenarioAction::OpenPicker,
        }
    }

    /// The buttons that are shown, from left to right.
    pub fn render(&self) -> (shown: Vec<Button>)
        ensures
            shown@ == if self.visible {
                all_buttons(self.build_task, self.flash_task)
            } else {
                Seq::<Button>::empty()
            },
    {
        let mut shown: Vec<Button> = Vec::new();
        if self.visible {
            shown.push(
                Button {
                    id: "embedded-build",
                    icon: ButtonIcon::ToolHammer,
                    tooltip: "嵌入式编译（点击执行构建任务）",
                    press: Press::Task(self.build_task.clone()),
                },
            );
            shown.push(
                Button {
                    id: "embedded-flash",
                    icon: ButtonIcon::BoltFilled,
                    tooltip: "嵌入式烧录（下载固件到目标板）",
                    press: Press::Task(self.flash_task.clone()),
                },
            );
            shown.push(
                Button {
                    id: "embedded-debug",
                    icon: ButtonIcon::Debug,
                    tooltip: "嵌入式调试（编译 → 烧录 → 挂起）",
                    press: Press::Debug,
                },
            );
        }
        shown
    }
}

/// Looking at the same project twice is as good as looking once, and what the
/// tasks are is kept while the buttons are hidden.
pub proof fn law_refresh_settles(buttons: ButtonsView, visible: bool, labels: Seq<Seq<char>>)
    ensures
        buttons.refreshed(visible, labels).refreshed(visible, labels) == buttons.refreshed(
            visible,
            labels,
        ),
        buttons.refreshed(false, labels).build_task == buttons.build_task,
        buttons.refreshed(false, labels).flash_task == buttons.flash_task,
{
}

} // verus!

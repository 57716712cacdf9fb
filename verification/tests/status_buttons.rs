use embedded_support::project::ProjectFiles;
use embedded_support::status_buttons::{
    choose_scenario, find_label, ButtonIcon, DebugAction, EmbeddedButtons, Press, ScenarioAction,
    ScenarioChoice, ScenarioLists, Spawn, TaskKind, MISSING_ADAPTER,
};

fn list(items: &[&str]) -> Vec<String> {
    items.iter().map(|s| s.to_string()).collect()
}

fn some(s: &str) -> Option<String> {
    Some(s.to_string())
}

fn files(embedded: bool) -> ProjectFiles {
    ProjectFiles {
        embedded_json: embedded,
        debug_json: false,
        cmake_presets: false,
        mcu_cmake: false,
        cmake_lists: None,
    }
}

#[test]
fn the_first_fitting_label_counts() {
    let labels = list(&["a: configure", "a: build", "b: build", "b: flash", "download all"]);
    assert_eq!(find_label(&labels, TaskKind::Build), some("a: build"));
    assert_eq!(find_label(&labels, TaskKind::Flash), some("b: flash"));
    assert_eq!(find_label(&list(&["get: download"]), TaskKind::Flash), some("get: download"));
    assert_eq!(find_label(&list(&["build"]), TaskKind::Build), None);
    assert_eq!(find_label(&list(&["stm32: build"]), TaskKind::Build), some("stm32: build"));
    assert_eq!(find_label(&list(&[]), TaskKind::Flash), None);
    // A target named after flashing is taken at its first task.
    let odd = list(&["flash-tool: configure", "flash-tool: flash"]);
    assert_eq!(find_label(&odd, TaskKind::Flash), some("flash-tool: configure"));
}

#[test]
fn buttons_follow_the_project() {
    let tasks = some(r#"[{"label": "x: build"}, {"label": "x: flash"}]"#);
    let mut buttons = EmbeddedButtons::new();
    assert_eq!(
        buttons,
        EmbeddedButtons { visible: false, build_task: None, flash_task: None }
    );
    assert!(!buttons.refresh(&files(false), &tasks));
    assert!(!buttons.visible);
    assert_eq!(buttons.build_task, None);
    assert!(buttons.refresh(&files(true), &tasks));
    assert!(buttons.visible);
    assert_eq!(buttons.build_task, some("x: build"));
    assert_eq!(buttons.flash_task, some("x: flash"));
    // Hidden buttons keep their tasks.
    buttons.refresh(&files(false), &None);
    assert!(!buttons.visible);
    assert_eq!(buttons.build_task, some("x: build"));
    // Shown ones lose them with the file.
    buttons.refresh(&files(true), &None);
    assert_eq!(buttons.build_task, None);
    assert_eq!(buttons.flash_task, None);
}

#[test]
fn labels_are_taken_up() {
    let mut buttons = EmbeddedButtons::new();
    buttons.update(true, &list(&["stm32: build"]));
    assert_eq!(buttons.build_task, some("stm32: build"));
    assert_eq!(buttons.flash_task, None);
    let mut again = EmbeddedButtons::new();
    again.update(true, &list(&["stm32: build"]));
    again.update(true, &list(&["stm32: build"]));
    assert_eq!(buttons, again);
}

#[test]
fn hidden_buttons_are_not_rendered() {
    let mut buttons = EmbeddedButtons::new();
    assert!(buttons.render().is_empty());
    buttons.update(true, &list(&["a: build", "a: flash"]));
    let shown = buttons.render();
    let ids: Vec<&str> = shown.iter().map(|b| b.id).collect();
    assert_eq!(ids, ["embedded-build", "embedded-flash", "embedded-debug"]);
    assert_eq!(shown[0].press, Press::Task(some("a: build")));
    assert_eq!(shown[1].press, Press::Task(some("a: flash")));
    assert_eq!(shown[2].press, Press::Debug);
    assert_eq!(shown[0].icon, ButtonIcon::ToolHammer);
    assert_eq!(shown[1].tooltip, "嵌入式烧录（下载固件到目标板）");
}

#[test]
fn a_task_is_started_by_its_label() {
    assert_eq!(
        EmbeddedButtons::dispatch_task(some("a: build")),
        Spawn::ByName { task_name: "a: build".to_string() }
    );
    assert_eq!(EmbeddedButtons::dispatch_task(None), Spawn::ViaModal);
}

#[test]
fn debugging_needs_adapter_and_provider() {
    assert_eq!(EmbeddedButtons::on_debug(false, true), DebugAction::ShowError(MISSING_ADAPTER));
    assert_eq!(EmbeddedButtons::on_debug(false, false), DebugAction::ShowError(MISSING_ADAPTER));
    assert_eq!(EmbeddedButtons::on_debug(true, false), DebugAction::OpenPicker);
    assert_eq!(EmbeddedButtons::on_debug(true, true), DebugAction::ListScenarios);
    assert_eq!(
        MISSING_ADAPTER,
        "未找到 yz61-embedded 调试适配器：请打开扩展面板，\
         对 yz61-embedded 执行 Reinstall Dev Extension 后重试"
    );
}

#[test]
fn scenarios_of_the_embedded_adapter_come_first() {
    let e = "yz61-embedded";
    let choose = |recent: &[&str], from_file: &[&str]| choose_scenario(&list(recent), &list(from_file));
    assert_eq!(choose(&["x", e, e], &[e]), Some(ScenarioChoice::Recent(1)));
    assert_eq!(choose(&["x"], &["y", e]), Some(ScenarioChoice::FromFile(1)));
    assert_eq!(choose(&["x", "y"], &["z"]), Some(ScenarioChoice::Recent(0)));
    assert_eq!(choose(&[], &["z"]), Some(ScenarioChoice::FromFile(0)));
    assert_eq!(choose(&[], &[]), None);
}

#[test]
fn scenarios_are_launched() {
    let lists = |recent: &[&str], from_file: &[&str]| {
        ScenarioLists { recent: list(recent), from_file: list(from_file) }
    };
    assert_eq!(EmbeddedButtons::on_scenarios(&lists(&[], &[])), ScenarioAction::OpenPicker);
    assert_eq!(
        EmbeddedButtons::on_scenarios(&lists(&["a"], &["yz61-embedded"])),
        ScenarioAction::Launch(ScenarioChoice::FromFile(0))
    );
}

#[test]
fn only_changes_are_reported() {
    let tasks = some(r#"[{"label": "x: build"}, {"label": "x: flash"}]"#);
    let mut buttons = EmbeddedButtons::new();
    assert!(buttons.refresh(&files(true), &tasks));
    assert!(!buttons.refresh(&files(true), &tasks));
    // Other labels that are not taken make no difference.
    let more = some(r#"[{"label": "x: build"}, {"label": "x: flash"}, {"label": "y: build"}]"#);
    assert!(!buttons.refresh(&files(true), &more));
    // Another flash task does, and so does another build task.
    let flash = some(r#"[{"label": "x: build"}, {"label": "y: flash"}]"#);
    assert!(buttons.refresh(&files(true), &flash));
    let build = some(r#"[{"label": "y: flash"}]"#);
    assert!(buttons.refresh(&files(true), &build));
    // Hiding is a change, staying hidden is none.
    assert!(buttons.refresh(&files(false), &tasks));
    assert!(!buttons.refresh(&files(false), &None));
}

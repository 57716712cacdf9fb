use embedded_support::generate::{
    embedded_template, generate, plan_files, read_config, read_speed, Plan, ProjectState,
};
use embedded_support::json::{Fields, Json};
use embedded_support::json_text::parse_json;
use embedded_support::presets::{Preset, ProjectRoot};
use embedded_support::project::{is_embedded_project, ProjectFiles};
use embedded_support::status_buttons::EmbeddedButtons;
use embedded_support::tasks::{read_tasks_labels, Tools};

const PRESETS: &str = r#"{"configurePresets": [
    {"name": "f4", "binaryDir": "${sourceDir}/build/f4",
     "cacheVariables": {"LY_MCU": "stm32f407vgt6"}},
    {"name": "host"}
]}"#;

fn state(presets: Option<&str>) -> ProjectState {
    ProjectState {
        root: ProjectRoot { text: "/p/demo".to_string(), exact: true },
        files: ProjectFiles {
            embedded_json: false,
            debug_json: false,
            cmake_presets: true,
            mcu_cmake: true,
            cmake_lists: Some("project(demo)".to_string()),
        },
        tasks_json: false,
        config_text: None,
        presets_text: presets.map(str::to_string),
        tools: Tools {
            cmake: "cmake".to_string(),
            size: "arm-none-eabi-size".to_string(),
            probe_rs: "probe-rs".to_string(),
        },
    }
}

fn names(plan: &Plan) -> Vec<&str> {
    plan.files.iter().map(|file| file.name.as_str()).collect()
}

fn contents(plan: &Plan, name: &str) -> String {
    plan.files.iter().find(|file| file.name == name).unwrap().contents.clone()
}

#[test]
fn all_files_are_planned_for_a_new_project() {
    let plan = generate(&state(Some(PRESETS))).unwrap();
    assert_eq!(names(&plan), ["tasks.json", "debug.json", "embedded.json"]);
    assert_eq!(
        plan.message,
        Some("已为 /p/demo 生成 tasks.json、debug.json、embedded.json".to_string())
    );
    let labels = read_tasks_labels(&Some(contents(&plan, "tasks.json")));
    assert_eq!(labels[1], "f4: build");
    assert_eq!(labels.len(), 11);
}

#[test]
fn embedded_json_of_a_new_project() {
    let plan = generate(&state(Some(PRESETS))).unwrap();
    let expected = concat_lines(&[
        "{",
        "  \"_readme\": \"由 Zed 嵌入式支持自动生成；chip 可用 `probe-rs chip list` 查询。\",",
        "  \"backend\": \"probe-rs\",",
        "  \"chip\": \"STM32F407VG\",",
        "  \"buildDir\": \"build/f4\",",
        "  \"autoDownload\": true",
        "}",
    ]);
    assert_eq!(contents(&plan, "embedded.json"), expected);
    let config = read_config(&Some(expected));
    assert_eq!(config.unwrap().get_str("chip"), Some("STM32F407VG"));
}

fn concat_lines(lines: &[&str]) -> String {
    lines.join("\n")
}

#[test]
fn only_missing_files_are_planned() {
    let mut some = state(Some(PRESETS));
    some.tasks_json = true;
    let plan = generate(&some).unwrap();
    assert_eq!(names(&plan), ["debug.json", "embedded.json"]);
    some.files.embedded_json = true;
    let plan = generate(&some).unwrap();
    assert_eq!(names(&plan), ["debug.json"]);
    assert_eq!(plan.message, Some("已为 /p/demo 生成 debug.json".to_string()));
    some.files.debug_json = true;
    let plan = generate(&some).unwrap();
    assert_eq!(plan, Plan { files: vec![], message: None });
}

#[test]
fn a_second_run_plans_nothing() {
    let mut project = state(Some(PRESETS));
    let plan = generate(&project).unwrap();
    project.tasks_json = true;
    project.files.debug_json = true;
    project.files.embedded_json = true;
    project.config_text = Some(contents(&plan, "embedded.json"));
    assert!(is_embedded_project(&project.files));
    assert_eq!(generate(&project), Some(Plan { files: vec![], message: None }));
}

#[test]
fn other_projects_are_left_alone() {
    let mut other = state(Some(PRESETS));
    other.files.mcu_cmake = false;
    assert_eq!(generate(&other), Some(Plan { files: vec![], message: None }));
}

#[test]
fn without_presets_the_defaults_are_planned() {
    let mut plain = state(None);
    plain.config_text = Some(r#"{"chip": "STM32G071RB", "speed": 1000}"#.to_string());
    plain.files.embedded_json = true;
    let plan = generate(&plain).unwrap();
    assert_eq!(names(&plan), ["tasks.json", "debug.json"]);
    let tasks = parse_json(&contents(&plan, "tasks.json")).unwrap();
    let flash = &tasks.as_array().unwrap()[4];
    assert_eq!(flash.get_str("label"), Some("stm32: flash"));
    assert_eq!(
        *flash.get("args").unwrap(),
        parse_json(r#"["download", "--chip", "STM32G071RB", "build/fw.elf"]"#).unwrap()
    );
    let debug = parse_json(&contents(&plan, "debug.json")).unwrap();
    assert_eq!(debug.as_array().unwrap()[0].get_str("label"), Some("stm32: debug STM32G071RB"));
}

#[test]
fn the_speed_of_the_configuration_is_used() {
    let mut fast = state(Some(PRESETS));
    fast.files.embedded_json = true;
    fast.config_text = Some(r#"{"speed": 4000}"#.to_string());
    let plan = generate(&fast).unwrap();
    let tasks = parse_json(&contents(&plan, "tasks.json")).unwrap();
    assert_eq!(
        *tasks.as_array().unwrap()[4].get("args").unwrap(),
        parse_json(
            r#"["download", "--chip", "STM32F407VG", "--speed", 4000, "build/f4/demo.elf"]"#
        )
        .unwrap()
    );
    assert_eq!(read_speed(&parse_json(r#"{"speed": -1}"#)), None);
    assert_eq!(read_speed(&parse_json(r#"{"speed": 1.5}"#)), None);
    assert_eq!(read_speed(&parse_json(r#"{"speed": "1"}"#)), None);
    assert_eq!(read_speed(&parse_json(r#"{"speed": 1}"#)), Some(1));
    assert_eq!(read_speed(&None), None);
    assert!(read_config(&None).is_none());
    assert!(read_config(&Some("x".to_string())).is_none());
}

#[test]
fn a_part_name_that_cannot_be_cut_stops_generation() {
    let bad = r#"{"configurePresets": [{"name": "x", "cacheVariables": {"CHIP": "stm32f40é99"}}]}"#;
    let mut project = state(Some(bad));
    assert_eq!(generate(&project), None);
    project.tasks_json = true;
    project.files.debug_json = true;
    assert_eq!(generate(&project), None);
    project.files.embedded_json = true;
    assert_eq!(generate(&project), Some(Plan { files: vec![], message: None }));
}

#[test]
fn template_defaults() {
    let template = |chip: &str, dir: &str| -> Json {
        Fields::new()
            .with_text("_readme", "由 Zed 嵌入式支持自动生成；chip 可用 `probe-rs chip list` 查询。")
            .with_text("backend", "probe-rs")
            .with_text("chip", chip)
            .with_text("buildDir", dir)
            .with("autoDownload", Json::Bool(true))
            .object()
    };
    assert_eq!(embedded_template(&vec![]), template("STM32F103C8", "build"));
    let preset = |name: &str, chip: Option<&str>| Preset {
        name: name.to_string(),
        build_dir_rel: format!("build/{name}"),
        chip: chip.map(str::to_string),
        elf_rel: String::new(),
    };
    let presets = vec![preset("a", None), preset("b", Some("X")), preset("c", Some("Y"))];
    assert_eq!(embedded_template(&presets), template("X", "build/a"));
}

#[test]
fn the_buttons_run_the_planned_tasks() {
    let project = state(None);
    let preset = Preset {
        name: "f4".to_string(),
        build_dir_rel: "build/f4".to_string(),
        chip: Some("STM32F407VG".to_string()),
        elf_rel: "build/f4/fw.elf".to_string(),
    };
    let plan = plan_files(&project, &vec![preset]);
    let mut buttons = EmbeddedButtons::new();
    buttons.refresh(&project.files, &Some(contents(&plan, "tasks.json")));
    assert!(buttons.visible);
    assert_eq!(buttons.build_task, Some("f4: build".to_string()));
    assert_eq!(buttons.flash_task, Some("f4: flash".to_string()));
}

#[test]
fn the_flash_button_takes_the_first_known_chip() {
    let project = state(None);
    let preset = |name: &str, chip: Option<&str>| Preset {
        name: name.to_string(),
        build_dir_rel: "build".to_string(),
        chip: chip.map(str::to_string),
        elf_rel: format!("build/{name}.elf"),
    };
    let presets = vec![
        preset("a", None),
        preset("b", Some("STM32F407VG")),
        preset("flash-tool", Some("STM32G071RB")),
    ];
    let plan = plan_files(&project, &presets);
    let mut buttons = EmbeddedButtons::new();
    buttons.refresh(&project.files, &Some(contents(&plan, "tasks.json")));
    assert_eq!(buttons.build_task, Some("a: build".to_string()));
    assert_eq!(buttons.flash_task, Some("b: flash".to_string()));

    let debug = parse_json(&contents(&plan, "debug.json")).unwrap();
    let scenarios = debug.as_array().unwrap();
    assert_eq!(scenarios.len(), 3);
    assert_eq!(scenarios[0].get_str("label"), Some("a: debug a"));
    assert_eq!(scenarios[1].get_str("label"), Some("b: debug STM32F407VG"));
    assert_eq!(scenarios[2].get_str("program"), Some("build/flash-tool.elf"));
    assert_eq!(scenarios[2].get_str("build"), Some("flash-tool: build"));
    assert_eq!(scenarios[2].get_str("adapter"), Some("yz61-embedded"));
}

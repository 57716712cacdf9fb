use embedded_support::json::{Fields, Items, Json};
use embedded_support::json_text::{parse_json, print_json};
use embedded_support::presets::Preset;
use embedded_support::tasks::{
    default_tasks, document_labels, preset_tasks, read_tasks_labels, setting_or, Tools,
};

fn tools() -> Tools {
    Tools {
        cmake: "/usr/bin/cmake".to_string(),
        size: "arm-none-eabi-size".to_string(),
        probe_rs: "probe-rs".to_string(),
    }
}

fn task(label: &str, command: &str, args: &[&str]) -> Json {
    let mut items = Items::new();
    for arg in args {
        items = items.with_text(arg);
    }
    task_with(label, command, items.array())
}

fn task_with(label: &str, command: &str, args: Json) -> Json {
    Fields::new()
        .with_text("label", label)
        .with_text("command", command)
        .with("args", args)
        .with_text("cwd", "$ZED_WORKTREE_ROOT")
        .with_text("reveal", "always")
        .object()
}

fn preset(name: &str, chip: Option<&str>) -> Preset {
    Preset {
        name: name.to_string(),
        build_dir_rel: format!("build/{name}"),
        chip: chip.map(str::to_string),
        elf_rel: format!("build/{name}/fw.elf"),
    }
}

#[test]
fn a_target_with_a_chip_has_seven_tasks() {
    let cmake = "/usr/bin/cmake";
    let elf = "build/f4/fw.elf";
    let expected = Json::Array(vec![
        task("f4: configure", cmake, &["--preset", "f4"]),
        task("f4: build", cmake, &["--build", "--preset", "f4"]),
        task("f4: clean", cmake, &["--build", "--preset", "f4", "--target", "clean"]),
        task("f4: size", "arm-none-eabi-size", &[elf]),
        task("f4: flash", "probe-rs", &["download", "--chip", "STM32F407VG", elf]),
        task("f4: erase", "probe-rs", &["erase", "--chip", "STM32F407VG"]),
        task("f4: reset", "probe-rs", &["reset", "--chip", "STM32F407VG"]),
    ]);
    assert_eq!(preset_tasks(&vec![preset("f4", Some("STM32F407VG"))], &tools(), None), expected);
}

#[test]
fn the_probe_speed_is_passed_on() {
    let tasks = preset_tasks(&vec![preset("f4", Some("STM32F407VG"))], &tools(), Some(4000));
    let args = Items::new()
        .with_text("download")
        .with_text("--chip")
        .with_text("STM32F407VG")
        .with_text("--speed")
        .with(Json::Number(Some(4000)))
        .with_text("build/f4/fw.elf")
        .array();
    assert_eq!(tasks.as_array().unwrap()[4], task_with("f4: flash", "probe-rs", args));
}

#[test]
fn targets_follow_one_another() {
    let presets = vec![preset("a", None), preset("b", Some("STM32F103C8"))];
    let labels = document_labels(&preset_tasks(&presets, &tools(), None));
    assert_eq!(
        labels,
        [
            "a: configure", "a: build", "a: clean", "a: size", "b: configure", "b: build",
            "b: clean", "b: size", "b: flash", "b: erase", "b: reset"
        ]
    );
    assert_eq!(preset_tasks(&vec![], &tools(), None), Json::Array(vec![]));
}

#[test]
fn default_tasks_without_configuration() {
    let cmake = "/usr/bin/cmake";
    let expected = Json::Array(vec![
        task(
            "stm32: configure",
            cmake,
            &[
                "-G",
                "Ninja",
                "-S",
                ".",
                "-B",
                "build",
                "-DCMAKE_BUILD_TYPE=RelWithDebInfo",
                "-DCMAKE_TOOLCHAIN_FILE=cmake/arm-gcc-toolchain.cmake",
            ],
        ),
        task("stm32: build", cmake, &["--build", "build"]),
        task("stm32: clean", cmake, &["--build", "build", "--target", "clean"]),
        task("stm32: size", "arm-none-eabi-size", &["build/fw.elf"]),
        task("stm32: flash", "probe-rs", &["download", "--chip", "STM32F103C8", "build/fw.elf"]),
        task("stm32: erase", "probe-rs", &["erase", "--chip", "STM32F103C8"]),
        task("stm32: reset", "probe-rs", &["reset", "--chip", "STM32F103C8"]),
    ]);
    assert_eq!(default_tasks(&tools(), &None), expected);
    assert_eq!(default_tasks(&tools(), &Some(Json::Null)), expected);
}

#[test]
fn default_tasks_with_configuration() {
    let config = parse_json(
        r#"{"buildDir": "out", "target": "app", "chip": "STM32G071RB", "toolchainFile": "t.cmake"}"#,
    );
    let tasks = default_tasks(&tools(), &config);
    let items = tasks.as_array().unwrap();
    assert_eq!(
        items[4],
        task("stm32: flash", "probe-rs", &["download", "--chip", "STM32G071RB", "out/app.elf"])
    );
    assert_eq!(
        items[0].get("args").unwrap().as_array().unwrap()[7],
        Json::text("-DCMAKE_TOOLCHAIN_FILE=t.cmake")
    );
    assert_eq!(setting_or(&config, "chip", "x"), "STM32G071RB");
    assert_eq!(setting_or(&config, "none", "x"), "x");
}

#[test]
fn labels_are_read_from_either_form() {
    let read = |text: &str| read_tasks_labels(&Some(text.to_string()));
    assert_eq!(read(r#"[{"label": "a"}, {"command": "x"}, {"label": 3}, {"label": "b"}]"#), ["a", "b"]);
    assert_eq!(read(r#"{"tasks": [{"label": "a"}]}"#), ["a"]);
    assert!(read(r#"{"tasks": {}}"#).is_empty());
    assert!(read(r#"{"label": "a"}"#).is_empty());
    assert!(read("3").is_empty());
    assert!(read("not json").is_empty());
    assert!(read_tasks_labels(&None).is_empty());
}

#[test]
fn labels_of_printed_tasks_are_read_back() {
    let tasks = preset_tasks(&vec![preset("f4", Some("STM32F407VG"))], &tools(), Some(1));
    let text = print_json(&tasks);
    assert_eq!(read_tasks_labels(&Some(text)), document_labels(&tasks));
}

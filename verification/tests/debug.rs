use embedded_support::debug::{default_debug, preset_debug, EMBEDDED_ADAPTER};
use embedded_support::json::{Fields, Json};
use embedded_support::json_text::parse_json;
use embedded_support::presets::Preset;
use embedded_support::tasks::{document_labels, preset_tasks, Tools};

fn scenario(label: &str, program: &str, build: &str) -> Fields {
    Fields::new()
        .with_text("label", label)
        .with_text("adapter", "yz61-embedded")
        .with_text("request", "launch")
        .with_text("program", program)
        .with("stop_on_entry", Json::Bool(false))
        .with_text("build", build)
}

fn presets() -> Vec<Preset> {
    vec![
        Preset {
            name: "f4".to_string(),
            build_dir_rel: "build/f4".to_string(),
            chip: Some("STM32F407VG".to_string()),
            elf_rel: "build/f4/fw.elf".to_string(),
        },
        Preset {
            name: "host".to_string(),
            build_dir_rel: "out".to_string(),
            chip: None,
            elf_rel: "out/fw.elf".to_string(),
        },
    ]
}

#[test]
fn each_target_has_a_scenario() {
    let expected = Json::Array(vec![
        scenario("f4: debug STM32F407VG", "build/f4/fw.elf", "f4: build")
            .with_text("chip", "STM32F407VG")
            .object(),
        scenario("host: debug host", "out/fw.elf", "host: build").object(),
    ]);
    assert_eq!(preset_debug(&presets()), expected);
    assert_eq!(preset_debug(&vec![]), Json::Array(vec![]));
    assert_eq!(EMBEDDED_ADAPTER, "yz61-embedded");
}

#[test]
fn default_scenario() {
    let expected = scenario("stm32: debug STM32", "build/fw.elf", "stm32: build").object();
    assert_eq!(default_debug(&None), Json::Array(vec![expected]));
    let config = parse_json(r#"{"chip": "STM32G071RB", "target": "app", "buildDir": "out"}"#);
    let expected = scenario("stm32: debug STM32G071RB", "out/app.elf", "stm32: build")
        .with_text("chip", "STM32G071RB")
        .object();
    assert_eq!(default_debug(&config), Json::Array(vec![expected]));
}

#[test]
fn scenarios_build_with_tasks() {
    let tools = Tools {
        cmake: "cmake".to_string(),
        size: "size".to_string(),
        probe_rs: "probe-rs".to_string(),
    };
    let labels = document_labels(&preset_tasks(&presets(), &tools, None));
    for one in preset_debug(&presets()).as_array().unwrap() {
        let build = one.get_str("build").unwrap();
        assert!(labels.iter().any(|label| label == build));
    }
}

use embedded_support::json::Json;
use embedded_support::json_text::parse_json;
use embedded_support::presets::{
    can_cut_parts, choose_build_dir, discover_presets, expand_dir, make_target, presets_in, Preset,
    ProjectRoot,
};

fn root() -> ProjectRoot {
    ProjectRoot { text: "/home/u/blinky".to_string(), exact: true }
}

fn some(s: &str) -> Option<String> {
    Some(s.to_string())
}

fn entry(text: &str) -> Json {
    parse_json(text).unwrap()
}

fn discover(text: &str) -> Vec<Preset> {
    discover_presets(&some(text), &some("project(blinky C)\n"), &root()).unwrap()
}

fn preset(name: &str, dir: &str, chip: Option<&str>, elf: &str) -> Preset {
    Preset {
        name: name.to_string(),
        build_dir_rel: dir.to_string(),
        chip: chip.map(str::to_string),
        elf_rel: elf.to_string(),
    }
}

#[test]
fn targets_are_found_in_order() {
    let text = r#"{"configurePresets": [
        {"name": "base", "hidden": true, "binaryDir": "x"},
        {"name": "f4", "binaryDir": "${sourceDir}/build/f4",
         "cacheVariables": {"LY_MCU": "stm32f407vgt6"}},
        {"displayName": "no name"},
        {"name": "f1", "hidden": false, "cacheVariables": {"CHIP": " STM32F103C8T6 "}},
        {"name": "host", "hidden": "yes", "binaryDir": "/tmp/out"}
    ]}"#;
    assert_eq!(
        discover(text),
        vec![
            preset("f4", "build/f4", Some("STM32F407VG"), "build/f4/blinky.elf"),
            preset("f1", "build/f1", Some("STM32F103C8"), "build/f1/blinky.elf"),
            preset("host", "/tmp/out", None, "/tmp/out/blinky.elf"),
        ]
    );
}

#[test]
fn first_cache_variable_counts() {
    let text = r#"{"configurePresets": [
        {"name": "a", "cacheVariables": {"CHIP": "stm32f103c8", "LY_MCU": "stm32f407vg"}},
        {"name": "b", "cacheVariables": {"CHIP": "stm32f103c8", "LY_MCU": {"value": "x"}}},
        {"name": "c", "cacheVariables": {"CHIP": "nrf52"}},
        {"name": "d", "cacheVariables": []}
    ]}"#;
    let chips: Vec<Option<String>> = discover(text).into_iter().map(|p| p.chip).collect();
    assert_eq!(chips, vec![some("STM32F407VG"), None, None, None]);
}

#[test]
fn without_a_list_there_are_no_targets() {
    for text in ["", "[]", "{}", r#"{"configurePresets": {}}"#, r#"{"configurePresets": []}"#] {
        assert_eq!(discover(text), vec![]);
    }
    assert_eq!(discover_presets(&None, &None, &root()), Some(vec![]));
}

#[test]
fn program_is_called_fw_without_a_project_name() {
    let text = some(r#"{"configurePresets": [{"name": "x"}]}"#);
    let presets = discover_presets(&text, &None, &root()).unwrap();
    assert_eq!(presets, vec![preset("x", "build/x", None, "build/x/fw.elf")]);
}

#[test]
fn build_directories_inside_the_project() {
    let dir = |d: &str| {
        let text = format!(r#"{{"configurePresets": [{{"name": "x", "binaryDir": "{d}"}}]}}"#);
        discover(&text)[0].build_dir_rel.clone()
    };
    assert_eq!(dir("${sourceDir}/out"), "out");
    assert_eq!(dir("${sourceDir}"), "");
    assert_eq!(dir("/home/u/blinky/out/x"), "out/x");
    assert_eq!(dir("/home/u/blinkyx/out"), "/home/u/blinkyx/out");
    assert_eq!(dir("out"), "out");
    assert_eq!(dir("${sourceDir}/../out"), "../out");
}

#[test]
fn a_root_that_is_no_text_is_not_stripped() {
    let text = some(r#"{"configurePresets": [{"name": "x", "binaryDir": "${sourceDir}/out"}]}"#);
    let lossy = ProjectRoot { text: "/home/\u{fffd}".to_string(), exact: false };
    let presets = discover_presets(&text, &None, &lossy).unwrap();
    assert_eq!(presets[0].build_dir_rel, "/home/\u{fffd}/out");
}

#[test]
fn variables_are_expanded() {
    assert_eq!(expand_dir("${sourceDir}/a", "/r"), "/r/a");
    assert_eq!(expand_dir("${sourceDir}${sourceDir}", "/r"), "/r/r");
    assert_eq!(expand_dir("a", "/r"), "a");
    // What the first replacement makes is replaced by the second.
    assert_eq!(expand_dir("${source${sourceDir}", "Dir}/x"), "x");
}

#[test]
fn the_directory_is_what_was_stripped() {
    let given = entry(r#"{"name": "x", "binaryDir": "${sourceDir}/a"}"#);
    assert_eq!(choose_build_dir(&given, &root(), some("a")), "a");
    assert_eq!(choose_build_dir(&given, &root(), None), "/home/u/blinky/a");
    let none = entry(r#"{"name": "x"}"#);
    assert_eq!(choose_build_dir(&none, &root(), None), "build/x");
    let target = make_target(&none, &some("t"), "d".to_string());
    assert_eq!(target, preset("x", "d", None, "d/t.elf"));
}

#[test]
fn part_names_that_cannot_be_cut_are_reported() {
    let bad = r#"{"configurePresets": [{"name": "x", "cacheVariables": {"CHIP": "stm32f40é99"}}]}"#;
    assert!(!can_cut_parts(&entry(bad)));
    assert_eq!(discover_presets(&some(bad), &None, &root()), None);
    // Only targets count.
    let hidden = r#"{"configurePresets": [
        {"name": "x", "hidden": true, "cacheVariables": {"CHIP": "stm32f40é99"}},
        {"cacheVariables": {"CHIP": "stm32f40é99"}}]}"#;
    assert!(can_cut_parts(&entry(hidden)));
    assert_eq!(presets_in(&entry(hidden), &None, &root()), vec![]);
}

fn dirs(root: &str, dir: &str) -> (String, String) {
    let root = ProjectRoot { text: root.to_string(), exact: true };
    let text = format!(r#"{{"configurePresets": [{{"name": "f4", "binaryDir": "{dir}"}}]}}"#);
    let presets = discover_presets(&some(&text), &some("project(blinky C)\n"), &root).unwrap();
    (presets[0].build_dir_rel.clone(), presets[0].elf_rel.clone())
}

fn pair(dir: &str, elf: &str) -> (String, String) {
    (dir.to_string(), elf.to_string())
}

#[test]
fn build_dirs_below_a_root_on_a_drive() {
    let root = "C:\\proj";
    assert_eq!(
        dirs(root, "${sourceDir}/build/f4"),
        pair("build/f4", "build/f4/blinky.elf")
    );
    assert_eq!(dirs(root, "${sourceDir}/build/"), pair("build", "build/blinky.elf"));
    assert_eq!(dirs(root, "${sourceDir}"), pair("", "/blinky.elf"));
    assert_eq!(dirs("D:\\a.b\\c d", "${sourceDir}/out"), pair("out", "out/blinky.elf"));
}

#[test]
fn build_dirs_outside_a_root_on_a_drive() {
    let root = "C:\\proj";
    assert_eq!(dirs(root, "/opt/out"), pair("/opt/out", "/opt/out/blinky.elf"));
    assert_eq!(dirs(root, "D:/out"), pair("D:/out", "D:/out/blinky.elf"));
    assert_eq!(dirs(root, "C:/project"), pair("C:/project", "C:/project/blinky.elf"));
    assert_eq!(dirs(root, "build"), pair("build", "build/blinky.elf"));
}

#[test]
fn separators_in_excess_do_not_count() {
    let root = "/home/u/blinky";
    assert_eq!(dirs(root, "${sourceDir}/build/"), pair("build", "build/blinky.elf"));
    assert_eq!(dirs(root, "${sourceDir}/build//"), pair("build", "build/blinky.elf"));
    assert_eq!(dirs(root, "${sourceDir}/"), pair("", "/blinky.elf"));
    assert_eq!(dirs(root, "${sourceDir}//build"), pair("build", "build/blinky.elf"));
    assert_eq!(dirs(root, "${sourceDir}/./build"), pair("build", "build/blinky.elf"));
    assert_eq!(dirs("/home//u/./blinky", "${sourceDir}/b"), pair("b", "b/blinky.elf"));
    assert_eq!(dirs("blinky", "/${sourceDir}/b"), pair("/blinky/b", "/blinky/b/blinky.elf"));
}

#[test]
fn build_dirs_of_a_project_at_a_root() {
    assert_eq!(dirs("/", "/build"), pair("build", "build/blinky.elf"));
    assert_eq!(dirs("/", "/"), pair("", "/blinky.elf"));
    assert_eq!(dirs("/", "build"), pair("build", "build/blinky.elf"));
    assert_eq!(dirs("C:/", "C:/build/f4"), pair("build/f4", "build/f4/blinky.elf"));
    assert_eq!(dirs("C:/", "${sourceDir}/build"), pair("build", "build/blinky.elf"));
    assert_eq!(dirs("C:\\", "${sourceDir}/build"), pair("build", "build/blinky.elf"));
    assert_eq!(dirs("C:\\", "D:/build"), pair("D:/build", "D:/build/blinky.elf"));
}

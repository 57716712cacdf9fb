use embedded_support::project::{is_embedded_project, project_name, ProjectFiles};

fn files() -> ProjectFiles {
    ProjectFiles {
        embedded_json: false,
        debug_json: false,
        cmake_presets: false,
        mcu_cmake: false,
        cmake_lists: None,
    }
}

fn lists(text: &str) -> Option<String> {
    Some(text.to_string())
}

#[test]
fn a_project_that_was_set_up_is_embedded() {
    assert!(!is_embedded_project(&files()));
    assert!(is_embedded_project(&ProjectFiles { embedded_json: true, ..files() }));
    assert!(is_embedded_project(&ProjectFiles { debug_json: true, ..files() }));
}

#[test]
fn presets_need_an_mcu_or_the_cross_compiler() {
    assert!(!is_embedded_project(&ProjectFiles { cmake_presets: true, ..files() }));
    assert!(!is_embedded_project(&ProjectFiles { mcu_cmake: true, ..files() }));
    assert!(is_embedded_project(&ProjectFiles { cmake_presets: true, mcu_cmake: true, ..files() }));
    let cross = lists("set(CMAKE_C_COMPILER arm-none-eabi-gcc)\n");
    assert!(is_embedded_project(&ProjectFiles {
        cmake_presets: true,
        cmake_lists: cross,
        ..files()
    }));
    let cross = lists("set(CMAKE_C_COMPILER arm-none-eabi-gcc)\n");
    assert!(!is_embedded_project(&ProjectFiles { cmake_lists: cross, ..files() }));
    let native = lists("project(x)\n");
    assert!(!is_embedded_project(&ProjectFiles {
        cmake_presets: true,
        cmake_lists: native,
        ..files()
    }));
}

#[test]
fn project_name_is_first_argument() {
    assert_eq!(project_name(&None), None);
    assert_eq!(project_name(&lists("")), None);
    assert_eq!(
        project_name(&lists("cmake_minimum_required(VERSION 3.22)\n  project(blinky C ASM)\n")),
        Some("blinky".to_string())
    );
    assert_eq!(project_name(&lists("project(\"led demo\")")), Some("led".to_string()));
    assert_eq!(project_name(&lists("project('fw')\r\n")), Some("fw".to_string()));
    assert_eq!(project_name(&lists("project(a)\nproject(b)")), Some("a".to_string()));
    assert_eq!(project_name(&lists("project(project(x))")), Some("x".to_string()));
}

#[test]
fn comments_do_not_name_the_project() {
    assert_eq!(project_name(&lists("# project(old)\nproject(new) # x")), Some("new".to_string()));
    assert_eq!(project_name(&lists("project(a#b)")), Some("a".to_string()));
    assert_eq!(project_name(&lists("if(X) project(a)")), None);
}

#[test]
fn an_empty_name_is_none() {
    assert_eq!(project_name(&lists("project()\nproject(b)")), None);
    assert_eq!(project_name(&lists("project(\n  name)\n")), None);
    assert_eq!(project_name(&lists("project( x)")), None);
    assert_eq!(project_name(&lists("project(\"\")")), None);
    assert_eq!(project_name(&lists("project (x)")), None);
}

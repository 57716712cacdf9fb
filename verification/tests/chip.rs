use embedded_support::chip::{can_cut, infer_chip};

fn chip(raw: &str) -> Option<String> {
    assert!(can_cut(raw));
    infer_chip(raw)
}

#[test]
fn full_part_name_gives_target_name() {
    assert_eq!(chip("stm32f407vgt6"), Some("STM32F407VG".to_string()));
    assert_eq!(chip("STM32F103C8T6"), Some("STM32F103C8".to_string()));
    assert_eq!(chip("stm32h743zi"), Some("STM32H743ZI".to_string()));
}

#[test]
fn case_and_surrounding_space_do_not_count() {
    assert_eq!(chip("  Stm32F407vgT6\t\n"), Some("STM32F407VG".to_string()));
    assert_eq!(chip("\u{3000}stm32l476rg\u{a0}"), Some("STM32L476RG".to_string()));
}

#[test]
fn target_name_stands_for_itself() {
    for raw in ["stm32a123bc", "stm32c011f4", "stm32g071rbt6", "stm32u585ai", "stm32wb55rg"] {
        if let Some(name) = chip(raw) {
            assert_eq!(chip(&name), Some(name.clone()));
        }
    }
    assert_eq!(chip("STM32F407VG"), Some("STM32F407VG".to_string()));
}

#[test]
fn every_family_letter_is_known() {
    for letter in ["a", "c", "f", "g", "h", "l", "u", "w"] {
        let raw = format!("stm32{letter}407vg");
        let expected = format!("STM32{}407VG", letter.to_uppercase());
        assert_eq!(chip(&raw), Some(expected));
    }
    for letter in ["b", "d", "e", "i", "m", "z", "1"] {
        assert_eq!(chip(&format!("stm32{letter}407vg")), None);
    }
}

#[test]
fn other_names_have_no_chip() {
    assert_eq!(chip(""), None);
    assert_eq!(chip("nrf52840"), None);
    assert_eq!(chip("stm32"), None);
    assert_eq!(chip("stm32f407v"), None);
    assert_eq!(chip("stm32fx07vg"), None);
    assert_eq!(chip("stm32wb55rg"), None);
    assert_eq!(chip("stm32f407-g"), None);
    assert_eq!(chip("stm32f407v-t6"), None);
    assert_eq!(chip("xstm32f407vg"), None);
}

#[test]
fn names_of_other_characters() {
    // Six bytes, and a character that starts at the fourth.
    assert_eq!(chip("stm32f407é"), None);
    assert_eq!(chip("stm32ééé"), None);
    assert_eq!(chip("stm32é"), None);
    assert!(!can_cut("stm32f40é99"));
    assert!(!can_cut("stm32f407vé"));
    // Without a family before it the sixth byte does not matter.
    assert!(can_cut("stm32b407vé"));
    assert_eq!(chip("stm32b407vé"), None);
    assert_eq!(chip("stm32f407vgé"), Some("STM32F407VG".to_string()));
    assert!(can_cut("é"));
}

#[test]
fn what_follows_the_flash_code_does_not_count() {
    for tail in ["", "T6", " rev. b", "\u{e9}", "_\u{4e2d}", "  "] {
        let raw = format!("stm32f407vg{tail}");
        assert!(can_cut(&raw));
        assert_eq!(infer_chip(&raw), Some("STM32F407VG".to_string()));
    }
}

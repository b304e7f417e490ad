use rinch::shortcut::{
    key_from_name, modifier_from_name, parse_shortcut_for_matching, split_on_plus, KeyCode, Modifier, ParsedShortcut,
    ShortcutTable,
};

fn shortcut(ctrl_or_cmd: bool, alt: bool, shift: bool, key: KeyCode) -> ParsedShortcut {
    ParsedShortcut { ctrl_or_cmd, alt, shift, key }
}

#[test]
fn parses_modifiers_and_key_in_any_case() {
    assert_eq!(parse_shortcut_for_matching("Ctrl+Shift+S"), Some(shortcut(true, false, true, KeyCode::KeyS)));
    assert_eq!(parse_shortcut_for_matching("cmd+n"), Some(shortcut(true, false, false, KeyCode::KeyN)));
    assert_eq!(parse_shortcut_for_matching("ALT+f4"), Some(shortcut(false, true, false, KeyCode::F4)));
    assert_eq!(parse_shortcut_for_matching("Option+Esc"), Some(shortcut(false, true, false, KeyCode::Escape)));
    assert_eq!(parse_shortcut_for_matching("="), Some(shortcut(false, false, false, KeyCode::Equal)));
    assert_eq!(parse_shortcut_for_matching("CmdOrCtrl+ArrowLeft"), Some(shortcut(true, false, false, KeyCode::ArrowLeft)));
}

#[test]
fn rejects_shortcuts_without_a_known_key() {
    assert_eq!(parse_shortcut_for_matching("Ctrl"), None);
    assert_eq!(parse_shortcut_for_matching("Ctrl+Foo"), None);
    assert_eq!(parse_shortcut_for_matching(""), None);
    assert_eq!(parse_shortcut_for_matching("Ctrl++"), None);
}

#[test]
fn last_plain_piece_is_the_key() {
    assert_eq!(parse_shortcut_for_matching("A+Shift+B"), Some(shortcut(false, false, true, KeyCode::KeyB)));
}

#[test]
fn names_of_keys_and_modifiers() {
    assert_eq!(key_from_name("PAGEDOWN"), Some(KeyCode::PageDown));
    assert_eq!(key_from_name("pagedown"), None);
    assert_eq!(key_from_name("7"), Some(KeyCode::Digit7));
    assert_eq!(modifier_from_name("control"), Some(Modifier::CtrlOrCmd));
    assert_eq!(modifier_from_name("Shift"), None);
    assert_eq!(modifier_from_name("option"), Some(Modifier::Alt));
}

#[test]
fn splits_on_plus() {
    assert_eq!(split_on_plus("a+bc+"), vec!["a".to_string(), "bc".to_string(), "".to_string()]);
    assert_eq!(split_on_plus(""), vec!["".to_string()]);
}

#[test]
fn table_matches_first_pressed_shortcut() {
    let mut table: ShortcutTable<&str> = ShortcutTable::new();
    table.add(shortcut(true, false, false, KeyCode::KeyS), "save");
    table.add(shortcut(true, false, true, KeyCode::KeyS), "save-as");
    table.add(shortcut(true, false, false, KeyCode::KeyS), "shadowed");
    assert_eq!(table.match_shortcut(true, false, false, false, KeyCode::KeyS), Some(&"save"));
    assert_eq!(table.match_shortcut(false, true, false, true, KeyCode::KeyS), Some(&"save-as"));
    assert_eq!(table.match_shortcut(false, false, false, false, KeyCode::KeyS), None);
}

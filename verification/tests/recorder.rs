use alacritty_macos::hotkey::{NS_MOD_ALT, NS_MOD_CMD, NS_MOD_CTRL, NS_MOD_SHIFT};
use alacritty_macos::recorder::{
    combo_display, record_key, record_key_with, recorded_binding, recorder_caption,
    HotkeyBinding, Recording,
};

#[test]
fn escape_disables() {
    assert_eq!(record_key(0, 53, "\u{1b}"), Recording::Disabled);
    assert_eq!(record_key(NS_MOD_CMD, 53, ""), Recording::Disabled);
}

#[test]
fn bare_modifier_keys_are_ignored() {
    for code in 54u16..=62 {
        assert_eq!(record_key(NS_MOD_SHIFT, code, ""), Recording::Ignored);
    }
}

#[test]
fn a_combination_is_recorded_in_upper_case() {
    assert_eq!(
        record_key(NS_MOD_CMD | NS_MOD_SHIFT, 40, "k"),
        Recording::Combo { tag: (0x0300 << 32) | 40, display: "⌘⇧K".to_string() }
    );
}

#[test]
fn every_modifier_has_its_symbol() {
    assert_eq!(
        record_key(NS_MOD_CMD | NS_MOD_SHIFT | NS_MOD_ALT | NS_MOD_CTRL, 0, "a"),
        Recording::Combo { tag: 0x1b00 << 32, display: "⌘⇧⌥⌃A".to_string() }
    );
    assert_eq!(
        record_key(NS_MOD_CTRL, 1, "s"),
        Recording::Combo { tag: (0x1000 << 32) | 1, display: "⌃S".to_string() }
    );
    assert_eq!(
        record_key(NS_MOD_ALT, 2, "d"),
        Recording::Combo { tag: (0x0800 << 32) | 2, display: "⌥D".to_string() }
    );
}

#[test]
fn a_key_without_characters_is_named_by_its_code() {
    assert_eq!(
        record_key(0, 122, ""),
        Recording::Combo { tag: 122, display: "KEYCODE:122".to_string() }
    );
    assert_eq!(
        record_key(NS_MOD_CMD, 0, ""),
        Recording::Combo { tag: 0x0100 << 32, display: "⌘KEYCODE:0".to_string() }
    );
}

#[test]
fn upper_casing_follows_unicode() {
    assert_eq!(
        record_key(0, 10, "ß"),
        Recording::Combo { tag: 10, display: "SS".to_string() }
    );
    assert_eq!(
        record_key(0, 10, "é"),
        Recording::Combo { tag: 10, display: "É".to_string() }
    );
}

#[test]
fn record_key_with_takes_the_label_as_given() {
    assert_eq!(
        record_key_with(NS_MOD_CMD, 40, "k"),
        Recording::Combo { tag: (0x0100 << 32) | 40, display: "⌘k".to_string() }
    );
    assert_eq!(record_key_with(0, 53, "x"), Recording::Disabled);
    assert_eq!(record_key_with(0, 57, "x"), Recording::Ignored);
}

#[test]
fn combo_display_orders_the_symbols() {
    assert_eq!(combo_display(0, "F5"), "F5");
    assert_eq!(combo_display(NS_MOD_CTRL | NS_MOD_CMD, "F5"), "⌘⌃F5");
    assert_eq!(combo_display(NS_MOD_SHIFT | NS_MOD_ALT, ""), "⇧⌥");
    assert_eq!(combo_display(1 << 16, "X"), "X");
}

#[test]
fn recorded_binding_of_a_negative_tag_is_disabled() {
    assert_eq!(
        recorded_binding(-1, "whatever", "off"),
        HotkeyBinding { key_code: -1, modifiers: 0, display: "off".to_string() }
    );
}

#[test]
fn recorded_binding_unpacks_the_tag() {
    assert_eq!(
        recorded_binding((0x0300 << 32) | 40, "⌘⇧K", "off"),
        HotkeyBinding { key_code: 40, modifiers: 0x0300, display: "⌘⇧K".to_string() }
    );
    assert_eq!(
        recorded_binding(0, "", "off"),
        HotkeyBinding { key_code: 0, modifiers: 0, display: String::new() }
    );
}

#[test]
fn recorder_caption_falls_back_to_the_placeholder() {
    assert_eq!(recorder_caption("", "press a key"), "press a key");
    assert_eq!(recorder_caption("⌘K", "press a key"), "⌘K");
    assert_eq!(recorder_caption(" ", "press a key"), " ");
}

//! The hotkey recorder: what a key press means while the user records a new
//! global hotkey, and what gets saved once a combination has been recorded.

use crate::hotkey::{
    carbon_modifiers, decode_hotkey_tag, encode_hotkey_tag, hotkey_tag, is_modifier_key,
    modifier_key, nsflags_to_carbon_modifiers, tag_parts, ESCAPE_KEY, NS_MOD_ALT, NS_MOD_CMD,
    NS_MOD_CTRL, NS_MOD_SHIFT,
};
use crate::text::{decimal, decimal_string};
use vstd::prelude::*;

verus! {

/// The upper-case form of `s` as `str::to_uppercase` gives it.
pub uninterp spec fn uppercased(s: Seq<char>) -> Seq<char>;

/// Trusted: calls `str::to_uppercase` and names its result [`uppercased`].
/// Nothing is claimed about the result beyond that it depends on the text alone.
#[verifier::external_body]
fn to_uppercase(s: &str) -> (upper: String)
    ensures
        upper@ == uppercased(s@),
{
    s.to_uppercase()
}

/// The symbols of the modifier keys held, in the order Command, Shift,
/// Option, Control.
pub open spec fn modifier_symbols(ns: u64) -> Seq<char> {
    (if ns & NS_MOD_CMD != 0 {
        seq!['\u{2318}']
    } else {
        Seq::<char>::empty()
    }) + (if ns & NS_MOD_SHIFT != 0 {
        seq!['\u{21e7}']
    } else {
        Seq::<char>::empty()
    }) + (if ns & NS_MOD_ALT != 0 {
        seq!['\u{2325}']
    } else {
        Seq::<char>::empty()
    }) + (if ns & NS_MOD_CTRL != 0 {
        seq!['\u{2303}']
    } else {
        Seq::<char>::empty()
    })
}

/// The text `keycode:` that stands in for a key without characters.
pub open spec fn keycode_prefix() -> Seq<char> {
    seq!['k', 'e', 'y', 'c', 'o', 'd', 'e', ':']
}

/// How a key is named before it is put in upper case: by the characters it
/// types, or by its key code when it types none.
pub open spec fn key_label(key_code: u16, key_text: Seq<char>) -> Seq<char> {
    if key_text.len() == 0 {
        keycode_prefix() + decimal(key_code as nat)
    } else {
        key_text
    }
}

/// What pressing a key means to the recorder.
#[derive(Debug, PartialEq, Eq)]
pub enum Recording {
    /// Escape was pressed: the hotkey is to be disabled.
    Disabled,
    /// A modifier key by itself: recording goes on.
    Ignored,
    /// A combination was recorded.
    Combo {
        /// The combination packed as [`hotkey_tag`] describes.
        tag: i64,
        /// The text that shows the combination.
        display: String,
    },
}

/// The mathematical form of a [`Recording`].
pub enum RecordingView {
    Disabled,
    Ignored,
    Combo { tag: i64, display: Seq<char> },
}

impl View for Recording {
    type V = RecordingView;

    open spec fn view(&self) -> RecordingView {
        match self {
            Recording::Disabled => RecordingView::Disabled,
            Recording::Ignored => RecordingView::Ignored,
            Recording::Combo { tag, display } => RecordingView::Combo {
                tag: *tag,
                display: display@,
            },
        }
    }
}

/// What a key press means, given the key's name already in upper case.
pub open spec fn recorded_with(ns_flags: u64, key_code: u16, upper_label: Seq<char>) -> RecordingView {
    if key_code == ESCAPE_KEY {
        RecordingView::Disabled
    } else if is_modifier_key(key_code) {
        RecordingView::Ignored
    } else {
        RecordingView::Combo {
            tag: hotkey_tag(carbon_modifiers(ns_flags), key_code),
            display: modifier_symbols(ns_flags) + upper_label,
        }
    }
}

/// The display text of a combination: the modifier symbols followed by the
/// key's name, which the caller has put in upper case.
pub fn combo_display(ns_flags: u64, upper_label: &str) -> (display: String)
    ensures
        display@ == modifier_symbols(ns_flags) + upper_label@,
{
    let mut display = String::new();
    proof {
        reveal_strlit("\u{2318}");
        reveal_strlit("\u{21e7}");
        reveal_strlit("\u{2325}");
        reveal_strlit("\u{2303}");
        assert("\u{2318}"@ =~= seq!['\u{2318}']);
        assert("\u{21e7}"@ =~= seq!['\u{21e7}']);
        assert("\u{2325}"@ =~= seq!['\u{2325}']);
        assert("\u{2303}"@ =~= seq!['\u{2303}']);
    }
    if ns_flags & NS_MOD_CMD != 0 {
        display.append("\u{2318}");
    }
    if ns_flags & NS_MOD_SHIFT != 0 {
        display.append("\u{21e7}");
    }
    if ns_flags & NS_MOD_ALT != 0 {
        display.append("\u{2325}");
    }
    if ns_flags & NS_MOD_CTRL != 0 {
        display.append("\u{2303}");
    }
    proof {
        assert(display@ =~= modifier_symbols(ns_flags));
    }
    display.append(upper_label);
    display
}

/// Interprets a key press, given the key's name already in upper case.
pub fn record_key_with(ns_flags: u64, key_code: u16, upper_label: &str) -> (outcome: Recording)
    ensures
        outcome@ == recorded_with(ns_flags, key_code, upper_label@),
{
    if key_code == ESCAPE_KEY {
        Recording::Disabled
    } else if modifier_key(key_code) {
        Recording::Ignored
    } else {
        let tag = encode_hotkey_tag(nsflags_to_carbon_modifiers(ns_flags), key_code);
        Recording::Combo { tag, display: combo_display(ns_flags, upper_label) }
    }
}

/// Interprets a key press while recording.
///
/// `key_text` holds the characters that the key types with the modifiers
/// left out; it may be empty. Escape disables the hotkey, a bare modifier key
/// is ignored, and anything else is recorded with its name in upper case.
pub fn record_key(ns_flags: u64, key_code: u16, key_text: &str) -> (outcome: Recording)
    ensures
        outcome@ == recorded_with(ns_flags, key_code, uppercased(key_label(key_code, key_text@))),
{
    let upper = if key_text.unicode_len() == 0 {
        let mut label = String::from_str("keycode:");
        proof {
            reveal_strlit("keycode:");
            assert("keycode:"@ =~= keycode_prefix());
        }
        label.append(decimal_string(key_code as u64).as_str());
        to_uppercase(label.as_str())
    } else {
        to_uppercase(key_text)
    };
    record_key_with(ns_flags, key_code, upper.as_str())
}

/// A hotkey binding as it is saved: key code, Carbon modifier mask and the
/// text that shows it. A key code of `-1` means that the hotkey is disabled.
#[derive(Debug, PartialEq, Eq)]
pub struct HotkeyBinding {
    pub key_code: i64,
    pub modifiers: i64,
    pub display: String,
}

/// The binding to save for a tag that the recorder reported. A negative tag
/// gives the disabled binding, shown as `disabled_label`; any other tag gives
/// the key code and modifiers it carries, shown as `shown`.
pub fn recorded_binding(tag: i64, shown: &str, disabled_label: &str) -> (binding: HotkeyBinding)
    ensures
        tag < 0 ==> binding.key_code == -1 && binding.modifiers == 0 && binding.display@
            == disabled_label@,
        tag >= 0 ==> Some((binding.key_code as int, binding.modifiers as int)) == tag_parts(tag)
            && binding.display@ == shown@,
{
    match decode_hotkey_tag(tag) {
        Some((key_code, modifiers)) => HotkeyBinding {
            key_code,
            modifiers,
            display: shown.to_owned(),
        },
        None => HotkeyBinding { key_code: -1, modifiers: 0, display: disabled_label.to_owned() },
    }
}

/// The text that the recorder field shows before anything is recorded: the
/// saved display text, or `placeholder` when none is saved.
pub fn recorder_caption(saved_display: &str, placeholder: &str) -> (caption: String)
    ensures
        caption@ == if saved_display@.len() == 0 {
            placeholder@
        } else {
            saved_display@
        },
{
    if saved_display.unicode_len() == 0 {
        placeholder.to_owned()
    } else {
        saved_display.to_owned()
    }
}

} // verus!

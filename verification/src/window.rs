//! Decisions about windows and menu-bar items: which flags a popup window
//! gets, what a click on a menu-bar icon does, and how an item is labelled.

use crate::text::{decimal, decimal_string};
use crate::theme::{join_path, path_joined};
use vstd::prelude::*;

verus! {

/// Style-mask bit that lets the content of a window extend under its title bar.
pub const FULL_SIZE_CONTENT_VIEW: u64 = 0x8000;

/// Collection-behaviour bit that moves a window to the active space.
pub const MOVE_TO_ACTIVE_SPACE: u64 = 0x2;

/// Collection-behaviour bit that marks a window as transient.
pub const TRANSIENT: u64 = 0x8;

/// Style mask of the editor windows: titled, closable, miniaturizable and
/// resizable.
pub const EDITOR_STYLE_MASK: u64 = 0xf;

/// Event mask of a menu-bar button: it acts when the left or the right mouse
/// button is released.
pub const BUTTON_ACTION_MASK: u64 = 0x14;

/// Mouse button number of the right button.
pub const RIGHT_BUTTON: i64 = 1;

/// Virtual key code of the down arrow.
pub const DOWN_ARROW_KEY: u16 = 125;

/// Virtual key code of the up arrow.
pub const UP_ARROW_KEY: u16 = 126;

/// The style mask of a popup window: the given one without the bit that
/// extends the content under the title bar.
pub fn popup_style_mask(mask: u64) -> (popup: u64)
    ensures
        popup == mask & !FULL_SIZE_CONTENT_VIEW,
        popup & FULL_SIZE_CONTENT_VIEW == 0,
        popup | FULL_SIZE_CONTENT_VIEW == mask | FULL_SIZE_CONTENT_VIEW,
{
    let popup: u64 = mask & !FULL_SIZE_CONTENT_VIEW;
    proof {
        assert((mask & !0x8000u64) & 0x8000u64 == 0 && (mask & !0x8000u64) | 0x8000u64 == mask
            | 0x8000u64) by (bit_vector);
    }
    popup
}

/// The collection behaviour of a popup window: the existing one with the bits
/// that make it show up on the active space, as a transient window.
pub fn popup_collection_behavior(existing: u64) -> (behavior: u64)
    ensures
        behavior == existing | MOVE_TO_ACTIVE_SPACE | TRANSIENT,
        behavior & MOVE_TO_ACTIVE_SPACE != 0,
        behavior & TRANSIENT != 0,
        behavior & !(MOVE_TO_ACTIVE_SPACE | TRANSIENT) == existing & !(MOVE_TO_ACTIVE_SPACE
            | TRANSIENT),
{
    let behavior: u64 = existing | MOVE_TO_ACTIVE_SPACE | TRANSIENT;
    proof {
        assert((existing | 0x2u64 | 0x8u64) & 0x2u64 != 0 && (existing | 0x2u64 | 0x8u64) & 0x8u64
            != 0 && (existing | 0x2u64 | 0x8u64) & !(0x2u64 | 0x8u64) == existing & !(0x2u64
            | 0x8u64)) by (bit_vector);
    }
    behavior
}

/// Applying the popup collection behaviour twice is the same as applying it once.
pub proof fn lemma_popup_behavior_idempotent(existing: u64)
    ensures
        (existing | MOVE_TO_ACTIVE_SPACE | TRANSIENT) | MOVE_TO_ACTIVE_SPACE | TRANSIENT == existing
            | MOVE_TO_ACTIVE_SPACE | TRANSIENT,
{
    assert((existing | 0x2u64 | 0x8u64) | 0x2u64 | 0x8u64 == existing | 0x2u64 | 0x8u64)
        by (bit_vector);
}

/// What a click on a menu-bar icon does.
#[derive(Clone, Copy, Debug, PartialEq, Eq, Structural)]
pub enum ClickAction {
    /// Pop up the context menu of the icon.
    PopUpMenu,
    /// Show or hide the window that the icon belongs to.
    ToggleWindow,
    /// Show or hide all windows.
    ToggleAllWindows,
}

/// What is known about the icon that was clicked.
#[derive(Clone, Copy, Debug, PartialEq, Eq, Structural)]
pub struct IconRecord {
    /// Whether the icon's menu-bar item is known.
    pub has_item: bool,
    /// Whether the icon has a context menu.
    pub has_menu: bool,
    /// Whether the icon belongs to a window.
    pub has_window: bool,
}

/// The action for a click: the right button pops up the menu of an icon that
/// has one; any other click toggles the icon's window, or all windows when
/// the icon has none or is unknown.
pub open spec fn click_action_for(button: Option<i64>, record: Option<IconRecord>) -> ClickAction {
    if button == Some(RIGHT_BUTTON) && record is Some && record->0.has_menu && record->0.has_item {
        ClickAction::PopUpMenu
    } else if record is Some && record->0.has_window {
        ClickAction::ToggleWindow
    } else {
        ClickAction::ToggleAllWindows
    }
}

/// Decides what a click on a menu-bar icon does. `button` is the button
/// number of the current event, if there is an event; `record` is what is
/// registered for the clicked icon, if anything.
pub fn click_action(button: Option<i64>, record: Option<IconRecord>) -> (action: ClickAction)
    ensures
        action == click_action_for(button, record),
{
    let right: bool = match button {
        Some(b) => b == RIGHT_BUTTON,
        None => false,
    };
    match record {
        Some(r) => {
            if right && r.has_menu && r.has_item {
                ClickAction::PopUpMenu
            } else if r.has_window {
                ClickAction::ToggleWindow
            } else {
                ClickAction::ToggleAllWindows
            }
        },
        None => ClickAction::ToggleAllWindows,
    }
}

/// What toggling a window does.
#[derive(Clone, Copy, Debug, PartialEq, Eq, Structural)]
pub enum ToggleAction {
    /// Order the window out.
    Hide,
    /// Configure the window as a popup, activate the application and bring
    /// the window to the front.
    Show,
}

/// Decides what toggling a window does: a visible window is hidden, a
/// hidden one is shown.
pub fn toggle_action(visible: bool) -> (action: ToggleAction)
    ensures
        action == if visible {
            ToggleAction::Hide
        } else {
            ToggleAction::Show
        },
{
    if visible {
        ToggleAction::Hide
    } else {
        ToggleAction::Show
    }
}

/// Whether the editor window is the one the user is working in. Windows are
/// given by identifiers, `None` standing for "no such window"; `reports_key`
/// is what the editor window itself says about being the key window.
pub open spec fn editor_is_key(
    editor: Option<u64>,
    key_window: Option<u64>,
    main_window: Option<u64>,
    reports_key: bool,
) -> bool {
    editor is Some && (key_window == editor || main_window == editor || reports_key)
}

/// Decides whether the editor window is the key window: it is the
/// application's key window or main window, or says so itself.
pub fn config_window_is_key_window(
    editor: Option<u64>,
    key_window: Option<u64>,
    main_window: Option<u64>,
    reports_key: bool,
) -> (yes: bool)
    ensures
        yes == editor_is_key(editor, key_window, main_window, reports_key),
{
    match editor {
        Some(e) => {
            let is_key: bool = match key_window {
                Some(k) => k == e,
                None => false,
            };
            let is_main: bool = match main_window {
                Some(m) => m == e,
                None => false,
            };
            is_key || is_main || reports_key
        },
        None => false,
    }
}

/// Whether a key moves the selection of a list up or down.
pub fn vertical_arrow(key_code: u16) -> (yes: bool)
    ensures
        yes == (key_code == DOWN_ARROW_KEY || key_code == UP_ARROW_KEY),
{
    key_code == DOWN_ARROW_KEY || key_code == UP_ARROW_KEY
}

/// Hands out the numbers for the default titles of menu-bar items.
#[derive(Clone, Copy, Debug)]
pub struct TitleCounter {
    next: usize,
}

impl TitleCounter {
    /// The number that the next default title gets.
    pub closed spec fn upcoming(&self) -> nat {
        self.next as nat
    }

    /// A counter that starts at one.
    pub fn new() -> (counter: Self)
        ensures
            counter.upcoming() == 1,
    {
        TitleCounter { next: 1 }
    }
}

/// The title of a menu-bar item that shows text: the given title, or else
/// `prefix` followed by `number`.
pub open spec fn status_title(title: Option<Seq<char>>, prefix: Seq<char>, number: nat) -> Seq<char> {
    match title {
        Some(t) => t,
        None => prefix + decimal(number),
    }
}

/// Chooses the title of a menu-bar item that shows text. An item without a
/// title of its own is numbered: it gets `prefix` and the counter's number,
/// and the counter moves on, wrapping around at the largest number.
pub fn status_item_title(counter: &mut TitleCounter, title: Option<&str>, prefix: &str) -> (shown:
    String)
    ensures
        shown@ == status_title(
            match title {
                Some(t) => Some(t@),
                None => None,
            },
            prefix@,
            old(counter).upcoming(),
        ),
        title is Some ==> final(counter).upcoming() == old(counter).upcoming(),
        title is None ==> final(counter).upcoming() == (if old(counter).upcoming() == usize::MAX {
            0
        } else {
            old(counter).upcoming() + 1
        }),
{
    match title {
        Some(t) => t.to_owned(),
        None => {
            let number: usize = counter.next;
            counter.next = if number == usize::MAX {
                0
            } else {
                number + 1
            };
            let mut shown = String::from_str(prefix);
            shown.append(decimal_string(number as u64).as_str());
            shown
        },
    }
}

/// The places where the menu-bar icon is looked for, in order of
/// preference: five next to the executable, if its directory is known, then
/// two relative to the working directory.
pub open spec fn icon_candidates(exe_dir: Option<Seq<char>>) -> Seq<Seq<char>> {
    let near = match exe_dir {
        Some(dir) => seq![
            path_joined(dir, "cmd.png"@),
            path_joined(dir, "../Resources/cmd.png"@),
            path_joined(dir, "../extra/icons/cmd.png"@),
            path_joined(dir, "../../extra/icons/cmd.png"@),
            path_joined(dir, "../../../extra/icons/cmd.png"@),
        ],
        None => Seq::empty(),
    };
    near + seq!["extra/icons/cmd.png"@, "cmd.png"@]
}

/// Lists the places where the menu-bar icon is looked for. The host takes
/// the first that exists.
pub fn status_icon_candidates(exe_dir: Option<&str>) -> (places: Vec<String>)
    ensures
        places@.map_values(|p: String| p@) == icon_candidates(
            match exe_dir {
                Some(d) => Some(d@),
                None => None,
            },
        ),
{
    let mut places: Vec<String> = Vec::new();
    match exe_dir {
        Some(dir) => {
            places.push(join_path(dir, "cmd.png"));
            places.push(join_path(dir, "../Resources/cmd.png"));
            places.push(join_path(dir, "../extra/icons/cmd.png"));
            places.push(join_path(dir, "../../extra/icons/cmd.png"));
            places.push(join_path(dir, "../../../extra/icons/cmd.png"));
        },
        None => {},
    }
    places.push(String::from_str("extra/icons/cmd.png"));
    places.push(String::from_str("cmd.png"));
    proof {
        assert(places@.map_values(|p: String| p@) =~= icon_candidates(
            match exe_dir {
                Some(d) => Some(d@),
                None => None,
            },
        ));
    }
    places
}

} // verus!

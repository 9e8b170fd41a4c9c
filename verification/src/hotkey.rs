//! Decisions of the global hotkey: converting modifier flags, naming
//! function keys, packing a recorded key combination into a control tag, and
//! planning what the host has to register with the system.
//!
//! A hotkey binding is a key code, a modifier mask and a display string; a
//! negative key code means that the hotkey is disabled.

use crate::text::{chars_of, trim, trim_range};
use vstd::prelude::*;

verus! {

/// AppKit modifier flag for Shift.
pub const NS_MOD_SHIFT: u64 = 0x2_0000;

/// AppKit modifier flag for Control.
pub const NS_MOD_CTRL: u64 = 0x4_0000;

/// AppKit modifier flag for Option.
pub const NS_MOD_ALT: u64 = 0x8_0000;

/// AppKit modifier flag for Command.
pub const NS_MOD_CMD: u64 = 0x10_0000;

/// Carbon modifier bit for Command.
pub const CARBON_CMD: u32 = 0x0100;

/// Carbon modifier bit for Shift.
pub const CARBON_SHIFT: u32 = 0x0200;

/// Carbon modifier bit for Option.
pub const CARBON_ALT: u32 = 0x0800;

/// Carbon modifier bit for Control.
pub const CARBON_CTRL: u32 = 0x1000;

/// Event type of a key press in the keyboard event tap.
pub const KEY_DOWN_EVENT: u32 = 10;

/// Virtual key code of Escape, which disables the hotkey while recording.
pub const ESCAPE_KEY: u16 = 53;

/// The Carbon modifier mask that corresponds to AppKit modifier flags: each
/// of Command, Shift, Option and Control is carried over; nothing else is.
pub open spec fn carbon_modifiers(ns: u64) -> u32 {
    (if ns & NS_MOD_CMD != 0 {
        CARBON_CMD
    } else {
        0u32
    }) | (if ns & NS_MOD_SHIFT != 0 {
        CARBON_SHIFT
    } else {
        0u32
    }) | (if ns & NS_MOD_ALT != 0 {
        CARBON_ALT
    } else {
        0u32
    }) | (if ns & NS_MOD_CTRL != 0 {
        CARBON_CTRL
    } else {
        0u32
    })
}

/// Converts AppKit modifier flags into a Carbon modifier mask.
pub fn nsflags_to_carbon_modifiers(ns: u64) -> (m: u32)
    ensures
        m == carbon_modifiers(ns),
        (m & CARBON_CMD != 0) == (ns & NS_MOD_CMD != 0),
        (m & CARBON_SHIFT != 0) == (ns & NS_MOD_SHIFT != 0),
        (m & CARBON_ALT != 0) == (ns & NS_MOD_ALT != 0),
        (m & CARBON_CTRL != 0) == (ns & NS_MOD_CTRL != 0),
        m & !(CARBON_CMD | CARBON_SHIFT | CARBON_ALT | CARBON_CTRL) == 0,
        m <= 0x1b00,
{
    let cmd: u32 = if ns & NS_MOD_CMD != 0 {
        CARBON_CMD
    } else {
        0
    };
    let shift: u32 = if ns & NS_MOD_SHIFT != 0 {
        CARBON_SHIFT
    } else {
        0
    };
    let alt: u32 = if ns & NS_MOD_ALT != 0 {
        CARBON_ALT
    } else {
        0
    };
    let ctrl: u32 = if ns & NS_MOD_CTRL != 0 {
        CARBON_CTRL
    } else {
        0
    };
    let m: u32 = cmd | shift | alt | ctrl;
    proof {
        lemma_modifier_bits(cmd, shift, alt, ctrl);
    }
    m
}

/// The four Carbon modifier bits do not overlap: or-ing any choice of them
/// keeps each one readable.
proof fn lemma_modifier_bits(cmd: u32, shift: u32, alt: u32, ctrl: u32)
    by (bit_vector)
    requires
        cmd == 0 || cmd == 0x0100,
        shift == 0 || shift == 0x0200,
        alt == 0 || alt == 0x0800,
        ctrl == 0 || ctrl == 0x1000,
    ensures
        ((cmd | shift | alt | ctrl) & 0x0100u32 != 0) == (cmd != 0),
        ((cmd | shift | alt | ctrl) & 0x0200u32 != 0) == (shift != 0),
        ((cmd | shift | alt | ctrl) & 0x0800u32 != 0) == (alt != 0),
        ((cmd | shift | alt | ctrl) & 0x1000u32 != 0) == (ctrl != 0),
        (cmd | shift | alt | ctrl) & !(0x0100u32 | 0x0200u32 | 0x0800u32 | 0x1000u32) == 0,
        (cmd | shift | alt | ctrl) <= 0x1b00u32,
{
}

/// Flags that differ only outside the four modifier bits give the same mask.
pub proof fn lemma_other_flags_ignored(a: u64, b: u64)
    requires
        a & 0x1e_0000 == b & 0x1e_0000,
    ensures
        carbon_modifiers(a) == carbon_modifiers(b),
{
    assert((a & 0x2_0000 != 0) == (b & 0x2_0000 != 0) && (a & 0x4_0000 != 0) == (b & 0x4_0000
        != 0) && (a & 0x8_0000 != 0) == (b & 0x8_0000 != 0) && (a & 0x10_0000 != 0) == (b
        & 0x10_0000 != 0)) by (bit_vector)
        requires
            a & 0x1e_0000 == b & 0x1e_0000,
    ;
}

/// The number of the function key that `title` names: `F1` to `F19`, written
/// without a leading zero.
pub open spec fn fkey_number(title: Seq<char>) -> Option<int> {
    if title.len() == 2 && title[0] == 'F' && '1' <= title[1] && title[1] <= '9' {
        Some(title[1] as int - '0' as int)
    } else if title.len() == 3 && title[0] == 'F' && title[1] == '1' && '0' <= title[2]
        && title[2] <= '9' {
        Some(10 + (title[2] as int - '0' as int))
    } else {
        None
    }
}

/// The macOS virtual key code of function key `n`, for `n` from 1 to 19.
pub open spec fn fkey_code(n: int) -> int {
    if n == 1 {
        122
    } else if n == 2 {
        120
    } else if n == 3 {
        99
    } else if n == 4 {
        118
    } else if n == 5 {
        96
    } else if n == 6 {
        97
    } else if n == 7 {
        98
    } else if n == 8 {
        100
    } else if n == 9 {
        101
    } else if n == 10 {
        109
    } else if n == 11 {
        103
    } else if n == 12 {
        111
    } else if n == 13 {
        105
    } else if n == 14 {
        107
    } else if n == 15 {
        113
    } else if n == 16 {
        106
    } else if n == 17 {
        64
    } else if n == 18 {
        79
    } else {
        80
    }
}

/// The key code that a menu title such as `F5` stands for. The title is
/// trimmed first; anything but `F1` to `F19` gives nothing.
pub open spec fn fkey_keycode(title: Seq<char>) -> Option<int> {
    match fkey_number(trim(title)) {
        Some(n) => Some(fkey_code(n)),
        None => None,
    }
}

/// Maps the title of a function key, `F1` to `F19`, to its virtual key code.
pub fn fkey_title_to_keycode(title: &str) -> (code: Option<i64>)
    ensures
        (code is Some) == (fkey_keycode(title@) is Some),
        code matches Some(c) ==> Some(c as int) == fkey_keycode(title@),
{
    let chars = chars_of(title);
    let (a, b) = trim_range(&chars, 0, chars.len());
    proof {
        assert(chars@.subrange(0, chars@.len() as int) =~= title@);
    }
    let ghost t = chars@.subrange(a as int, b as int);
    let len: usize = b - a;
    if len < 2 || len > 3 || chars[a] != 'F' {
        return None;
    }
    let n: u8 = if len == 2 {
        let d: char = chars[a + 1];
        if '1' <= d && d <= '9' {
            d as u8 - 48
        } else {
            return None;
        }
    } else {
        let d: char = chars[a + 2];
        if chars[a + 1] == '1' && '0' <= d && d <= '9' {
            10 + (d as u8 - 48)
        } else {
            return None;
        }
    };
    proof {
        assert(t[0] == chars@[a as int]);
        assert(t[1] == chars@[a + 1]);
        if len == 3 {
            assert(t[2] == chars@[a + 2]);
        }
        assert(fkey_number(t) == Some(n as int));
    }
    let code: i64 = if n == 1 {
        122
    } else if n == 2 {
        120
    } else if n == 3 {
        99
    } else if n == 4 {
        118
    } else if n == 5 {
        96
    } else if n == 6 {
        97
    } else if n == 7 {
        98
    } else if n == 8 {
        100
    } else if n == 9 {
        101
    } else if n == 10 {
        109
    } else if n == 11 {
        103
    } else if n == 12 {
        111
    } else if n == 13 {
        105
    } else if n == 14 {
        107
    } else if n == 15 {
        113
    } else if n == 16 {
        106
    } else if n == 17 {
        64
    } else if n == 18 {
        79
    } else {
        80
    };
    Some(code)
}

/// What the host has to do with the system-wide hotkey.
#[derive(Clone, Copy, Debug, PartialEq, Eq, Structural)]
pub enum HotkeyPlan {
    /// Drop the registered hotkey and the keyboard monitor, and register
    /// nothing: the hotkey is disabled.
    Unregister,
    /// Replace the registered hotkey and the keyboard monitor.
    Register {
        /// Whether the press handlers still have to be installed.
        install_handlers: bool,
        /// Key code handed to the hotkey registration.
        key_code: u32,
        /// Carbon modifier mask handed to the hotkey registration.
        modifiers: u32,
        /// Key code that the keyboard monitor compares presses with.
        watch_code: u32,
    },
}

/// The key combination that the keyboard monitor watches for.
#[derive(Clone, Copy, Debug, PartialEq, Eq, Structural)]
pub struct WatchedCombo {
    /// Key code that presses are compared with.
    pub key_code: u32,
    /// Carbon modifier mask that has to be held, exactly.
    pub modifiers: u32,
}

/// Remembers what has been installed for the hotkey so far, and which
/// combination the keyboard monitor watches for, if any.
#[derive(Clone, Copy, Debug)]
pub struct HotkeyRegistrar {
    handlers_installed: bool,
    watched: Option<WatchedCombo>,
}

impl HotkeyRegistrar {
    /// Whether the press handlers have been installed.
    pub closed spec fn installed(&self) -> bool {
        self.handlers_installed
    }

    /// The combination that the keyboard monitor watches for; nothing while
    /// the hotkey is disabled.
    pub closed spec fn watched(&self) -> Option<WatchedCombo> {
        self.watched
    }

    /// Whether a keyboard event triggers the hotkey: it is a press of the
    /// watched combination. While the hotkey is disabled no event does.
    pub open spec fn fires(&self, event_type: u32, key_code: i64, flags: u64) -> bool {
        match self.watched() {
            Some(combo) => is_hotkey_press(
                event_type,
                key_code,
                flags,
                combo.key_code,
                combo.modifiers,
            ),
            None => false,
        }
    }

    /// A registrar for which nothing has been installed yet and whose hotkey
    /// is disabled.
    pub fn new() -> (registrar: Self)
        ensures
            !registrar.installed(),
            registrar.watched() is None,
    {
        HotkeyRegistrar { handlers_installed: false, watched: None }
    }

    /// Reads whether the press handlers have been installed.
    pub fn handlers_installed(&self) -> (installed: bool)
        ensures
            installed == self.installed(),
    {
        self.handlers_installed
    }

    /// Reads the combination that the keyboard monitor watches for.
    pub fn watched_combo(&self) -> (combo: Option<WatchedCombo>)
        ensures
            combo == self.watched(),
    {
        self.watched
    }

    /// Decides whether an event seen by the keyboard monitor triggers the
    /// hotkey.
    pub fn triggers(&self, event_type: u32, key_code: i64, flags: u64) -> (fired: bool)
        ensures
            fired == self.fires(event_type, key_code, flags),
    {
        match self.watched {
            Some(combo) => hotkey_pressed(
                event_type,
                key_code,
                flags,
                combo.key_code,
                combo.modifiers,
            ),
            None => false,
        }
    }
}

/// The plan for binding `key_code` with `modifiers`, given whether the
/// handlers are installed already. A negative key code disables the hotkey.
///
/// The registration takes the key code cut to 32 bits; the monitor watches for
/// the key code cut to 16 bits.
pub open spec fn plan_for(installed: bool, key_code: i64, modifiers: u32) -> HotkeyPlan {
    if key_code < 0 {
        HotkeyPlan::Unregister
    } else {
        HotkeyPlan::Register {
            install_handlers: !installed,
            key_code: key_code as u32,
            modifiers,
            watch_code: (key_code as u16) as u32,
        }
    }
}

/// What the keyboard monitor watches for once `key_code` with `modifiers`
/// has been bound: nothing for a negative key code, which disables the
/// hotkey, and else the key code cut to 16 bits with the modifiers.
pub open spec fn watched_for(key_code: i64, modifiers: u32) -> Option<WatchedCombo> {
    if key_code < 0 {
        None
    } else {
        Some(WatchedCombo { key_code: (key_code as u16) as u32, modifiers })
    }
}

/// Plans the registration of a hotkey with modifiers. The press handlers are
/// installed once, with the first hotkey that is registered. A negative key
/// code disables the hotkey: the registered hotkey and the keyboard monitor
/// both go, and from then on no key press triggers it.
pub fn register_hotkey_combo(registrar: &mut HotkeyRegistrar, key_code: i64, modifiers: u32) -> (plan:
    HotkeyPlan)
    ensures
        plan == plan_for(old(registrar).installed(), key_code, modifiers),
        final(registrar).installed() == (old(registrar).installed() || key_code >= 0),
        final(registrar).watched() == watched_for(key_code, modifiers),
        key_code < 0 ==> forall|t: u32, k: i64, f: u64| !#[trigger] final(registrar).fires(t, k, f),
        0 <= key_code <= 0xffff ==> plan == (HotkeyPlan::Register {
            install_handlers: !old(registrar).installed(),
            key_code: key_code as u32,
            modifiers,
            watch_code: key_code as u32,
        }),
{
    if key_code < 0 {
        registrar.watched = None;
        return HotkeyPlan::Unregister;
    }
    let install_handlers: bool = !registrar.handlers_installed;
    registrar.handlers_installed = true;
    let narrow: u16 = #[verifier::truncate]
    (key_code as u16);
    let wide: u32 = #[verifier::truncate]
    (key_code as u32);
    proof {
        assert(0 <= key_code <= 0xffff ==> key_code as u16 == key_code && key_code as u32
            == key_code) by (bit_vector);
    }
    registrar.watched = Some(WatchedCombo { key_code: narrow as u32, modifiers });
    HotkeyPlan::Register { install_handlers, key_code: wide, modifiers, watch_code: narrow as u32 }
}

/// Plans the registration of a hotkey without modifiers; a negative key code
/// disables the hotkey.
pub fn register_hotkey_keycode(registrar: &mut HotkeyRegistrar, key_code: i64) -> (plan: HotkeyPlan)
    ensures
        plan == plan_for(old(registrar).installed(), key_code, 0),
        final(registrar).installed() == (old(registrar).installed() || key_code >= 0),
        final(registrar).watched() == watched_for(key_code, 0),
{
    register_hotkey_combo(registrar, key_code, 0)
}

/// Plans the hotkey from the saved preferences: `code` is the saved key code
/// and `mods` the saved Carbon modifier mask, of which the low 32 bits count.
/// A negative saved key code leaves the hotkey disabled.
pub fn init_from_prefs(registrar: &mut HotkeyRegistrar, code: i64, mods: i64) -> (plan: HotkeyPlan)
    ensures
        plan == plan_for(old(registrar).installed(), code, mods as u32),
        code < 0 ==> plan == HotkeyPlan::Unregister,
        final(registrar).installed() == (old(registrar).installed() || code >= 0),
        final(registrar).watched() == watched_for(code, mods as u32),
{
    let modifiers: u32 = #[verifier::truncate]
    (mods as u32);
    register_hotkey_combo(registrar, code, modifiers)
}

/// Whether a keyboard event is a press of the watched hotkey: a key-down event
/// whose key code, cut to 32 bits, is the watched one and whose four modifier
/// keys are exactly the watched ones.
pub open spec fn is_hotkey_press(
    event_type: u32,
    key_code: i64,
    flags: u64,
    watch_code: u32,
    watch_modifiers: u32,
) -> bool {
    &&& event_type == KEY_DOWN_EVENT
    &&& key_code as u32 == watch_code
    &&& carbon_modifiers(flags) == watch_modifiers
}

/// Decides whether an event seen by the keyboard monitor triggers the hotkey.
pub fn hotkey_pressed(
    event_type: u32,
    key_code: i64,
    flags: u64,
    watch_code: u32,
    watch_modifiers: u32,
) -> (pressed: bool)
    ensures
        pressed == is_hotkey_press(event_type, key_code, flags, watch_code, watch_modifiers),
{
    if event_type != KEY_DOWN_EVENT {
        return false;
    }
    let code: u32 = #[verifier::truncate]
    (key_code as u32);
    code == watch_code && nsflags_to_carbon_modifiers(flags) == watch_modifiers
}

/// The tag that carries a recorded combination: the modifier mask in the high
/// 32 bits, the key code in the low 32 bits.
pub open spec fn hotkey_tag(carbon_mods: u32, key_code: u16) -> i64 {
    (((carbon_mods as u64) << 32) | (key_code as u64)) as i64
}

/// Packs a recorded combination into a tag.
pub fn encode_hotkey_tag(carbon_mods: u32, key_code: u16) -> (tag: i64)
    ensures
        tag == hotkey_tag(carbon_mods, key_code),
        carbon_mods < 0x8000_0000 ==> tag == carbon_mods * 0x1_0000_0000 + key_code,
{
    let bits: u64 = ((carbon_mods as u64) << 32) | (key_code as u64);
    proof {
        assert(carbon_mods < 0x8000_0000u32 ==> (((carbon_mods as u64) << 32) | (key_code as u64))
            == (carbon_mods as u64) * 0x1_0000_0000u64 + (key_code as u64) && (((carbon_mods as u64)
            << 32) | (key_code as u64)) < 0x8000_0000_0000_0000u64) by (bit_vector);
        assert(bits < 0x8000_0000_0000_0000u64 ==> bits as i64 == bits) by (bit_vector);
    }
    #[verifier::truncate]
    (bits as i64)
}

/// The key code and modifier mask that a tag carries, or nothing for a
/// negative tag, which stands for "disabled".
pub open spec fn tag_parts(tag: i64) -> Option<(int, int)> {
    if tag < 0 {
        None
    } else {
        Some(((tag as int) % 0x1_0000_0000, (tag as int) / 0x1_0000_0000))
    }
}

/// Unpacks a tag into key code and modifier mask.
pub fn decode_hotkey_tag(tag: i64) -> (parts: Option<(i64, i64)>)
    ensures
        parts is Some == (tag >= 0),
        parts matches Some(p) ==> Some((p.0 as int, p.1 as int)) == tag_parts(tag),
        parts matches Some(p) ==> 0 <= p.0 <= 0xffff_ffff && 0 <= p.1 < 0x8000_0000,
{
    if tag < 0 {
        return None;
    }
    let code: i64 = tag & 0xffff_ffff;
    let mods: i64 = (tag >> 32) & 0xffff_ffff;
    proof {
        assert(tag >= 0 ==> (tag & 0xffff_ffff) == tag % 0x1_0000_0000 && ((tag >> 32)
            & 0xffff_ffff) == tag / 0x1_0000_0000 && 0 <= (tag & 0xffff_ffff) <= 0xffff_ffff && 0
            <= ((tag >> 32) & 0xffff_ffff) < 0x8000_0000) by (bit_vector);
    }
    Some((code, mods))
}

/// Unpacking a packed combination gives the combination back, as long as the
/// modifier mask leaves the sign bit of the tag clear.
pub proof fn lemma_tag_round_trip(carbon_mods: u32, key_code: u16)
    requires
        carbon_mods < 0x8000_0000,
    ensures
        tag_parts(hotkey_tag(carbon_mods, key_code)) == Some((key_code as int, carbon_mods as int)),
{
    let tag = hotkey_tag(carbon_mods, key_code);
    assert(carbon_mods < 0x8000_0000u32 ==> ((((carbon_mods as u64) << 32) | (key_code as u64))
        as i64) >= 0 && ((((carbon_mods as u64) << 32) | (key_code as u64)) as i64)
        % 0x1_0000_0000 == key_code && ((((carbon_mods as u64) << 32) | (key_code as u64)) as i64)
        / 0x1_0000_0000 == carbon_mods) by (bit_vector);
}

/// Whether a virtual key code belongs to a modifier key by itself: Shift,
/// Control, Option, Command (either side) or Caps Lock.
pub open spec fn is_modifier_key(key_code: u16) -> bool {
    54 <= key_code <= 62
}

/// Tells whether a key press is a bare modifier key, which recording ignores.
pub fn modifier_key(key_code: u16) -> (yes: bool)
    ensures
        yes == is_modifier_key(key_code),
{
    54 <= key_code && key_code <= 62
}

/// The 32-bit code that four bytes spell, the first byte in the highest place.
pub open spec fn four_chars(a: u8, b: u8, c: u8, d: u8) -> u32 {
    ((a as u32) << 24) | ((b as u32) << 16) | ((c as u32) << 8) | (d as u32)
}

/// Packs four bytes into the code that the system uses for event classes
/// and signatures.
pub fn four_char_code(a: u8, b: u8, c: u8, d: u8) -> (code: u32)
    ensures
        code == four_chars(a, b, c, d),
        code == a * 0x100_0000 + b * 0x1_0000 + c * 0x100 + d,
{
    let code: u32 = ((a as u32) << 24) | ((b as u32) << 16) | ((c as u32) << 8) | (d as u32);
    proof {
        assert((((a as u32) << 24) | ((b as u32) << 16) | ((c as u32) << 8) | (d as u32)) == (
        a as u32) * 0x100_0000u32 + (b as u32) * 0x1_0000u32 + (c as u32) * 0x100u32 + (
        d as u32)) by (bit_vector);
    }
    code
}

} // verus!

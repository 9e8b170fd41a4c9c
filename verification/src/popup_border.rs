//! The popup border description: a list of `key=value` settings separated
//! by commas, such as `width=2,color=#336699,shadow=on`.
//!
//! Numbers with a fraction are left as text for the host to read; switches
//! and colours are decided here. Settings that are not understood are
//! skipped, and a later setting of the same kind overrides an earlier one.

use crate::text::{
    ascii_lowercase, chars_of, find, find_in_range, lemma_find_bounds, range_equals_lowered, trim,
    trim_range,
};
use vstd::prelude::*;

verus! {

/// One setting of the border description.
#[derive(Debug, PartialEq, Eq)]
pub enum BorderSetting {
    /// Border width, as written.
    Width(String),
    /// Border opacity, as written.
    Alpha(String),
    /// Corner radius, as written.
    Radius(String),
    /// Whether the window casts a shadow.
    Shadow(bool),
    /// Border colour: red, green, blue.
    Color(u8, u8, u8),
}

/// The mathematical form of a [`BorderSetting`].
pub enum BorderSettingView {
    Width(Seq<char>),
    Alpha(Seq<char>),
    Radius(Seq<char>),
    Shadow(bool),
    Color(u8, u8, u8),
}

impl View for BorderSetting {
    type V = BorderSettingView;

    open spec fn view(&self) -> BorderSettingView {
        match self {
            BorderSetting::Width(v) => BorderSettingView::Width(v@),
            BorderSetting::Alpha(v) => BorderSettingView::Alpha(v@),
            BorderSetting::Radius(v) => BorderSettingView::Radius(v@),
            BorderSetting::Shadow(on) => BorderSettingView::Shadow(*on),
            BorderSetting::Color(r, g, b) => BorderSettingView::Color(*r, *g, *b),
        }
    }
}

/// The value of a hexadecimal digit.
pub open spec fn hex_digit(c: char) -> Option<int> {
    if '0' <= c && c <= '9' {
        Some(c as int - '0' as int)
    } else if 'a' <= c && c <= 'f' {
        Some(c as int - 'a' as int + 10)
    } else if 'A' <= c && c <= 'F' {
        Some(c as int - 'A' as int + 10)
    } else {
        None
    }
}

/// The byte that two characters write in hexadecimal: two digits, or a plus
/// sign followed by one digit.
pub open spec fn hex_pair(a: char, b: char) -> Option<int> {
    match hex_digit(b) {
        Some(low) => if a == '+' {
            Some(low)
        } else {
            match hex_digit(a) {
                Some(high) => Some(16 * high + low),
                None => None,
            }
        },
        None => None,
    }
}

/// `s` without its leading `#` characters.
pub open spec fn without_hashes(s: Seq<char>) -> Seq<char>
    decreases s.len(),
{
    if s.len() > 0 && s[0] == '#' {
        without_hashes(s.drop_first())
    } else {
        s
    }
}

/// The colour that a value names: six characters after any leading `#`,
/// read as three hexadecimal bytes.
pub open spec fn color_of(value: Seq<char>) -> Option<(int, int, int)> {
    let hex = without_hashes(value);
    if hex.len() == 6 {
        match (hex_pair(hex[0], hex[1]), hex_pair(hex[2], hex[3]), hex_pair(hex[4], hex[5])) {
            (Some(r), Some(g), Some(b)) => Some((r, g, b)),
            _ => None,
        }
    } else {
        None
    }
}

/// Whether a value switches something on: `1`, `true`, `yes`, `y` or `on`,
/// in any mix of upper and lower case.
pub open spec fn is_on(value: Seq<char>) -> bool {
    let v = ascii_lowercase(value);
    v == "1"@ || v == "true"@ || v == "yes"@ || v == "y"@ || v == "on"@
}

/// The key of a `key=value` part: what precedes the first `=`, trimmed and
/// in lower case.
pub open spec fn key_of(part: Seq<char>) -> Seq<char> {
    ascii_lowercase(trim(part.take(find(part, '='))))
}

/// The value of a `key=value` part: what follows the first `=`, trimmed.
/// A part without `=` has an empty value.
pub open spec fn value_of(part: Seq<char>) -> Seq<char> {
    let eq = find(part, '=');
    if eq < part.len() {
        trim(part.skip(eq + 1))
    } else {
        Seq::empty()
    }
}

/// The setting that one part of the description gives, if it is understood.
pub open spec fn setting_of(part: Seq<char>) -> Option<BorderSettingView> {
    let key = key_of(part);
    let value = value_of(part);
    if key == "width"@ || key == "w"@ {
        Some(BorderSettingView::Width(value))
    } else if key == "alpha"@ || key == "a"@ {
        Some(BorderSettingView::Alpha(value))
    } else if key == "radius"@ || key == "r"@ {
        Some(BorderSettingView::Radius(value))
    } else if key == "shadow"@ || key == "s"@ {
        Some(BorderSettingView::Shadow(is_on(value)))
    } else if key == "color"@ || key == "c"@ {
        match color_of(value) {
            Some((r, g, b)) => Some(BorderSettingView::Color(r as u8, g as u8, b as u8)),
            None => None,
        }
    } else {
        None
    }
}

/// The settings that a description gives, in the order written.
pub open spec fn settings_of(s: Seq<char>) -> Seq<BorderSettingView>
    decreases s.len(),
    via settings_of_decreases
{
    let cut = find(s, ',');
    let rest = if cut < s.len() {
        settings_of(s.skip(cut + 1))
    } else {
        Seq::empty()
    };
    match setting_of(s.take(cut)) {
        Some(setting) => seq![setting] + rest,
        None => rest,
    }
}

#[via_fn]
proof fn settings_of_decreases(s: Seq<char>) {
    lemma_find_bounds(s, ',');
}

/// The views of a list of settings, in order.
pub open spec fn settings_view(settings: Seq<BorderSetting>) -> Seq<BorderSettingView> {
    settings.map_values(|s: BorderSetting| s@)
}

/// A colour byte is a byte.
pub proof fn lemma_hex_pair_is_byte(a: char, b: char)
    ensures
        hex_pair(a, b) matches Some(v) ==> 0 <= v <= 255,
{
}

/// Reads one hexadecimal digit.
fn read_hex_digit(c: char) -> (value: Option<u8>)
    ensures
        value is Some == hex_digit(c) is Some,
        value matches Some(v) ==> hex_digit(c) == Some(v as int) && v < 16,
{
    if '0' <= c && c <= '9' {
        Some(c as u8 - 48)
    } else if 'a' <= c && c <= 'f' {
        Some(c as u8 - 97 + 10)
    } else if 'A' <= c && c <= 'F' {
        Some(c as u8 - 65 + 10)
    } else {
        None
    }
}

/// Reads the byte that two characters write in hexadecimal.
fn read_hex_pair(a: char, b: char) -> (value: Option<u8>)
    ensures
        value is Some == hex_pair(a, b) is Some,
        value matches Some(v) ==> hex_pair(a, b) == Some(v as int),
{
    match read_hex_digit(b) {
        Some(low) => {
            if a == '+' {
                Some(low)
            } else {
                match read_hex_digit(a) {
                    Some(high) => Some(16 * high + low),
                    None => None,
                }
            }
        },
        None => None,
    }
}

/// Reads a colour from `chars[from..to]`.
fn read_color(chars: &Vec<char>, from: usize, to: usize) -> (color: Option<(u8, u8, u8)>)
    requires
        from <= to <= chars.len(),
    ensures
        color is Some == color_of(chars@.subrange(from as int, to as int)) is Some,
        color matches Some(c) ==> color_of(chars@.subrange(from as int, to as int)) == Some(
            (c.0 as int, c.1 as int, c.2 as int),
        ),
{
    let mut a: usize = from;
    while a < to && chars[a] == '#'
        invariant
            from <= a <= to <= chars.len(),
            without_hashes(chars@.subrange(a as int, to as int)) == without_hashes(
                chars@.subrange(from as int, to as int),
            ),
        decreases to - a,
    {
        proof {
            assert(chars@.subrange(a as int, to as int).drop_first() =~= chars@.subrange(
                a + 1,
                to as int,
            ));
        }
        a += 1;
    }
    let ghost hex = chars@.subrange(a as int, to as int);
    if to - a != 6 {
        return None;
    }
    proof {
        assert(hex[0] == chars@[a as int]);
        assert(hex[1] == chars@[a + 1]);
        assert(hex[2] == chars@[a + 2]);
        assert(hex[3] == chars@[a + 3]);
        assert(hex[4] == chars@[a + 4]);
        assert(hex[5] == chars@[a + 5]);
    }
    let r = read_hex_pair(chars[a], chars[a + 1]);
    let g = read_hex_pair(chars[a + 2], chars[a + 3]);
    let b = read_hex_pair(chars[a + 4], chars[a + 5]);
    match (r, g, b) {
        (Some(r), Some(g), Some(b)) => Some((r, g, b)),
        _ => None,
    }
}

/// Whether `chars[from..to]`, in lower case, spells `long` or `short`.
fn key_is(chars: &Vec<char>, from: usize, to: usize, long: &str, short: &str) -> (yes: bool)
    requires
        from <= to <= chars.len(),
    ensures
        yes == (ascii_lowercase(chars@.subrange(from as int, to as int)) == long@
            || ascii_lowercase(chars@.subrange(from as int, to as int)) == short@),
{
    let l = chars_of(long);
    let s = chars_of(short);
    range_equals_lowered(chars, from, to, &l) || range_equals_lowered(chars, from, to, &s)
}

/// Whether `chars[from..to]` switches something on.
fn reads_on(chars: &Vec<char>, from: usize, to: usize) -> (on: bool)
    requires
        from <= to <= chars.len(),
    ensures
        on == is_on(chars@.subrange(from as int, to as int)),
{
    key_is(chars, from, to, "1", "true") || key_is(chars, from, to, "yes", "y") || key_is(
        chars,
        from,
        to,
        "on",
        "on",
    )
}

/// Reads the part `chars[from..to]` of the description `text`.
fn read_setting(text: &str, chars: &Vec<char>, from: usize, to: usize) -> (setting: Option<
    BorderSetting,
>)
    requires
        chars@ == text@,
        from <= to <= chars.len(),
    ensures
        setting is Some == setting_of(chars@.subrange(from as int, to as int)) is Some,
        setting matches Some(s) ==> setting_of(chars@.subrange(from as int, to as int)) == Some(s@),
{
    let ghost part = chars@.subrange(from as int, to as int);
    let eq: usize = find_in_range(chars, from, to, '=');
    let (ka, kb) = trim_range(chars, from, eq);
    let (va, vb) = if eq < to {
        trim_range(chars, eq + 1, to)
    } else {
        (to, to)
    };
    proof {
        assert(part.take(eq - from) =~= chars@.subrange(from as int, eq as int));
        if eq < to {
            assert(part.skip(eq - from + 1) =~= chars@.subrange(eq + 1, to as int));
        } else {
            assert(chars@.subrange(to as int, to as int) =~= Seq::<char>::empty());
        }
        assert(key_of(part) == ascii_lowercase(chars@.subrange(ka as int, kb as int)));
        assert(value_of(part) == chars@.subrange(va as int, vb as int));
    }
    if key_is(chars, ka, kb, "width", "w") {
        Some(BorderSetting::Width(text.substring_char(va, vb).to_owned()))
    } else if key_is(chars, ka, kb, "alpha", "a") {
        Some(BorderSetting::Alpha(text.substring_char(va, vb).to_owned()))
    } else if key_is(chars, ka, kb, "radius", "r") {
        Some(BorderSetting::Radius(text.substring_char(va, vb).to_owned()))
    } else if key_is(chars, ka, kb, "shadow", "s") {
        Some(BorderSetting::Shadow(reads_on(chars, va, vb)))
    } else if key_is(chars, ka, kb, "color", "c") {
        match read_color(chars, va, vb) {
            Some((r, g, b)) => Some(BorderSetting::Color(r, g, b)),
            None => None,
        }
    } else {
        None
    }
}

/// Reads a border description into its settings, in the order written.
pub fn parse_border_settings(description: &str) -> (settings: Vec<BorderSetting>)
    ensures
        settings_view(settings@) == settings_of(description@),
{
    let chars = chars_of(description);
    let n: usize = chars.len();
    let mut settings: Vec<BorderSetting> = Vec::new();
    let mut start: usize = 0;
    let mut done: bool = false;
    proof {
        assert(chars@.skip(0) =~= chars@);
        assert(settings_view(settings@) + settings_of(chars@) =~= settings_of(chars@));
    }
    while !done
        invariant
            start <= n == chars.len(),
            chars@ == description@,
            !done ==> settings_view(settings@) + settings_of(chars@.skip(start as int))
                == settings_of(chars@),
            done ==> settings_view(settings@) == settings_of(chars@),
        decreases (n - start) + (if done { 0int } else { 1int }),
    {
        let cut: usize = find_in_range(&chars, start, n, ',');
        let ghost before = settings_view(settings@);
        let ghost remaining = chars@.skip(start as int);
        proof {
            assert(chars@.subrange(start as int, n as int) =~= remaining);
            assert(remaining.take(cut - start) =~= chars@.subrange(start as int, cut as int));
            if cut < n {
                assert(remaining.skip(cut - start + 1) =~= chars@.skip(cut + 1));
            }
        }
        match read_setting(description, &chars, start, cut) {
            Some(setting) => {
                let ghost v = setting@;
                settings.push(setting);
                proof {
                    assert(settings_view(settings@) =~= before.push(v));
                    assert(before.push(v) =~= before + seq![v]);
                }
            },
            None => {},
        }
        let ghost after = settings_view(settings@);
        if cut < n {
            proof {
                let rest = settings_of(chars@.skip(cut + 1));
                assert(after + rest =~= before + settings_of(remaining));
            }
            start = cut + 1;
        } else {
            proof {
                assert(after =~= before + settings_of(remaining));
            }
            done = true;
        }
    }
    settings
}

/// The shadow switch after a description has been read: the last `shadow`
/// setting, or `default` when the description has none.
pub open spec fn shadow_after(settings: Seq<BorderSettingView>, default: bool) -> bool
    decreases settings.len(),
{
    if settings.len() == 0 {
        default
    } else {
        match settings.last() {
            BorderSettingView::Shadow(on) => on,
            _ => shadow_after(settings.drop_last(), default),
        }
    }
}

/// The colour after a description has been read: the last `color` setting,
/// or `default` when the description has none.
pub open spec fn color_after(settings: Seq<BorderSettingView>, default: (u8, u8, u8)) -> (u8, u8, u8)
    decreases settings.len(),
{
    if settings.len() == 0 {
        default
    } else {
        match settings.last() {
            BorderSettingView::Color(r, g, b) => (r, g, b),
            _ => color_after(settings.drop_last(), default),
        }
    }
}

/// The shadow switch that a list of settings leaves.
pub fn shadow_setting(settings: &Vec<BorderSetting>, default: bool) -> (on: bool)
    ensures
        on == shadow_after(settings_view(settings@), default),
{
    let ghost all = settings_view(settings@);
    let mut on: bool = default;
    let mut i: usize = 0;
    proof {
        assert(all.take(0) =~= Seq::<BorderSettingView>::empty());
    }
    while i < settings.len()
        invariant
            i <= settings.len(),
            all == settings_view(settings@),
            on == shadow_after(all.take(i as int), default),
        decreases settings.len() - i,
    {
        proof {
            assert(all.take(i + 1).drop_last() =~= all.take(i as int));
            assert(all.take(i + 1).last() == settings@[i as int]@);
        }
        match &settings[i] {
            BorderSetting::Shadow(value) => {
                on = *value;
            },
            _ => {},
        }
        i += 1;
    }
    proof {
        assert(all.take(i as int) =~= all);
    }
    on
}

/// The colour that a list of settings leaves.
pub fn color_setting(settings: &Vec<BorderSetting>, default: (u8, u8, u8)) -> (color: (u8, u8, u8))
    ensures
        color == color_after(settings_view(settings@), default),
{
    let ghost all = settings_view(settings@);
    let mut color: (u8, u8, u8) = default;
    let mut i: usize = 0;
    proof {
        assert(all.take(0) =~= Seq::<BorderSettingView>::empty());
    }
    while i < settings.len()
        invariant
            i <= settings.len(),
            all == settings_view(settings@),
            color == color_after(all.take(i as int), default),
        decreases settings.len() - i,
    {
        proof {
            assert(all.take(i + 1).drop_last() =~= all.take(i as int));
            assert(all.take(i + 1).last() == settings@[i as int]@);
        }
        match &settings[i] {
            BorderSetting::Color(r, g, b) => {
                color = (*r, *g, *b);
            },
            _ => {},
        }
        i += 1;
    }
    proof {
        assert(all.take(i as int) =~= all);
    }
    color
}

} // verus!

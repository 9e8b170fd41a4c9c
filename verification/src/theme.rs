//! Theme files and the paths that name them.
//!
//! Themes live in one directory below the user's configuration directory and
//! are recorded in the configuration file by a path that starts with `~`.
//! A theme file is known here by its file name.

use crate::path_util::{is_under, opt_view, shortened};
use crate::text::{chars_of, range_equals, range_equals_lowered, ascii_lowercase};
use vstd::prelude::*;

verus! {

/// `p` with a leading `~` replaced by the home directory. Without a home
/// directory, or without a leading `~`, `p` is returned as it is.
pub open spec fn expanded(p: Seq<char>, home: Option<Seq<char>>) -> Seq<char> {
    match home {
        Some(h) => if p.len() > 0 && p[0] == '~' {
            h + p.skip(1)
        } else {
            p
        },
        None => p,
    }
}

/// `base` extended by the relative component `part`, with a `/` between them
/// unless `base` is empty or already ends with one.
pub open spec fn path_joined(base: Seq<char>, part: Seq<char>) -> Seq<char> {
    if base.len() == 0 || base.last() == '/' {
        base + part
    } else {
        base + seq!['/'] + part
    }
}

/// The configuration file below `home`.
pub open spec fn config_path(home: Seq<char>) -> Seq<char> {
    path_joined(path_joined(path_joined(home, ".config"@), "alacritty"@), "alacritty.toml"@)
}

/// The theme directory below `home`.
pub open spec fn theme_dir(home: Seq<char>) -> Seq<char> {
    path_joined(
        path_joined(path_joined(path_joined(home, ".config"@), "alacritty"@), "themes"@),
        "themes"@,
    )
}

/// The directory part of every recorded theme path.
pub open spec fn theme_prefix() -> Seq<char> {
    "~/.config/alacritty/themes/themes/"@
}

/// The path that records the theme file `file_name`.
pub open spec fn tilde_path(file_name: Seq<char>) -> Seq<char> {
    theme_prefix() + file_name
}

/// Position of the dot that starts the extension of a file name, if it has
/// an extension: the last dot, unless that dot is the first character.
pub open spec fn extension_dot(name: Seq<char>) -> Option<int> {
    if exists|i: int| 0 < i < name.len() && name[i] == '.' {
        Some(last_dot(name))
    } else {
        None
    }
}

/// Position of the last dot in `name`, or `-1` when it holds none.
pub open spec fn last_dot(name: Seq<char>) -> int
    decreases name.len(),
{
    if name.len() == 0 {
        -1
    } else if name.last() == '.' {
        name.len() - 1
    } else {
        last_dot(name.drop_last())
    }
}

/// The extension of a file name: what follows its last dot. A name without
/// a dot, or whose only dot comes first, has none.
pub open spec fn extension(name: Seq<char>) -> Option<Seq<char>> {
    match extension_dot(name) {
        Some(dot) => Some(name.skip(dot + 1)),
        None => None,
    }
}

/// The stem of a file name: what precedes its last dot, or the whole name
/// when it has no extension.
pub open spec fn file_stem(name: Seq<char>) -> Seq<char> {
    match extension_dot(name) {
        Some(dot) => name.take(dot),
        None => name,
    }
}

/// Whether a file name belongs to a theme: its extension is `toml`, in any
/// mix of upper and lower case.
pub open spec fn is_theme_file(name: Seq<char>) -> bool {
    match extension(name) {
        Some(ext) => ascii_lowercase(ext) == "toml"@,
        None => false,
    }
}

/// The row of the first theme whose recorded path, expanded, is `current`.
pub open spec fn current_row(themes: Seq<Seq<char>>, current: Seq<char>, home: Option<Seq<char>>) -> Option<
    int,
>
    decreases themes.len(),
{
    if themes.len() == 0 {
        None
    } else if expanded(tilde_path(themes[0]), home) == current {
        Some(0)
    } else {
        match current_row(themes.drop_first(), current, home) {
            Some(row) => Some(row + 1),
            None => None,
        }
    }
}

/// The last dot of a name sits where the name holds a dot and nothing after
/// it does.
pub proof fn lemma_last_dot(name: Seq<char>)
    ensures
        -1 <= last_dot(name) < name.len(),
        last_dot(name) >= 0 ==> name[last_dot(name)] == '.',
        forall|j: int| last_dot(name) < j < name.len() ==> name[j] != '.',
    decreases name.len(),
{
    if name.len() > 0 && name.last() != '.' {
        let shorter = name.drop_last();
        lemma_last_dot(shorter);
        assert forall|j: int| last_dot(name) < j < name.len() implies name[j] != '.' by {
            if j < shorter.len() {
                assert(name[j] == shorter[j]);
            }
        }
    }
}

/// A position that holds a dot with no dot after it is the last dot.
pub proof fn lemma_last_dot_is(name: Seq<char>, k: int)
    requires
        -1 <= k < name.len(),
        k >= 0 ==> name[k] == '.',
        forall|j: int| k < j < name.len() ==> name[j] != '.',
    ensures
        last_dot(name) == k,
    decreases name.len(),
{
    if name.len() > 0 && name.last() != '.' {
        let shorter = name.drop_last();
        assert forall|j: int| k < j < shorter.len() implies shorter[j] != '.' by {
            assert(shorter[j] == name[j]);
        }
        lemma_last_dot_is(shorter, k);
    }
}

/// What was shortened for display expands back to the path it came from.
pub proof fn lemma_expand_undoes_shorten(p: Seq<char>, home: Seq<char>)
    requires
        is_under(p, home),
    ensures
        expanded(shortened(p, Some(home)), Some(home)) == p,
{
    let short = shortened(p, Some(home));
    assert(short.skip(1) =~= p.skip(home.len() as int));
    assert(home + p.skip(home.len() as int) =~= p);
}

/// A recorded theme path expands to the theme file below the home directory.
pub proof fn lemma_tilde_path_expands(file_name: Seq<char>, home: Seq<char>)
    ensures
        expanded(tilde_path(file_name), Some(home)) == home + "/.config/alacritty/themes/themes/"@
            + file_name,
{
    reveal_strlit("~/.config/alacritty/themes/themes/");
    reveal_strlit("/.config/alacritty/themes/themes/");
    let t = tilde_path(file_name);
    assert(t[0] == '~');
    assert(t.skip(1) =~= "/.config/alacritty/themes/themes/"@ + file_name);
}

/// Replaces a leading `~` in `p` with the home directory.
pub fn expand_tilde(p: &str, home: Option<&str>) -> (full: String)
    ensures
        full@ == expanded(p@, opt_view(home)),
{
    match home {
        Some(h) => {
            let n: usize = p.unicode_len();
            if n > 0 && p.get_char(0) == '~' {
                let mut full = String::from_str(h);
                full.append(p.substring_char(1, n));
                proof {
                    assert(p@.subrange(1, n as int) =~= p@.skip(1));
                }
                full
            } else {
                p.to_owned()
            }
        },
        None => p.to_owned(),
    }
}

/// Extends `base` by the relative component `part`.
pub fn join_path(base: &str, part: &str) -> (joined: String)
    ensures
        joined@ == path_joined(base@, part@),
{
    let n: usize = base.unicode_len();
    let mut joined = String::from_str(base);
    if n > 0 && base.get_char(n - 1) != '/' {
        proof {
            reveal_strlit("/");
            assert("/"@ =~= seq!['/']);
        }
        joined.append("/");
    }
    joined.append(part);
    joined
}

/// The configuration file, if the home directory is known.
pub fn alacritty_config_path(home: Option<&str>) -> (path: Option<String>)
    ensures
        home is None ==> path is None,
        home matches Some(h) ==> (path matches Some(p) && p@ == config_path(h@)),
{
    match home {
        Some(h) => {
            let a = join_path(h, ".config");
            let b = join_path(a.as_str(), "alacritty");
            Some(join_path(b.as_str(), "alacritty.toml"))
        },
        None => None,
    }
}

/// The directory that holds the theme files, if the home directory is known.
pub fn theme_dir_path(home: Option<&str>) -> (path: Option<String>)
    ensures
        home is None ==> path is None,
        home matches Some(h) ==> (path matches Some(p) && p@ == theme_dir(h@)),
{
    match home {
        Some(h) => {
            let a = join_path(h, ".config");
            let b = join_path(a.as_str(), "alacritty");
            let c = join_path(b.as_str(), "themes");
            Some(join_path(c.as_str(), "themes"))
        },
        None => None,
    }
}

/// The path that records the theme file `file_name` in the configuration.
pub fn theme_path_to_tilde(file_name: &str) -> (path: String)
    ensures
        path@ == tilde_path(file_name@),
{
    let mut path = String::from_str("~/.config/alacritty/themes/themes/");
    path.append(file_name);
    path
}

/// Position of the dot that starts the extension in `chars`, if any.
fn find_extension_dot(chars: &Vec<char>) -> (dot: Option<usize>)
    ensures
        dot is Some == extension_dot(chars@) is Some,
        dot matches Some(d) ==> extension_dot(chars@) == Some(d as int) && 0 < d < chars.len(),
{
    let mut i: usize = chars.len();
    while i > 1
        invariant
            i <= chars.len(),
            forall|j: int| i <= j < chars.len() ==> chars@[j] != '.',
        decreases i,
    {
        i -= 1;
        if chars[i] == '.' {
            proof {
                lemma_last_dot_is(chars@, i as int);
            }
            return Some(i);
        }
    }
    None
}

/// Tells whether a file name belongs to a theme.
pub fn theme_file(name: &str) -> (yes: bool)
    ensures
        yes == is_theme_file(name@),
{
    let chars = chars_of(name);
    match find_extension_dot(&chars) {
        Some(dot) => {
            let word = chars_of("toml");
            proof {
                assert(chars@.subrange(dot + 1, chars@.len() as int) =~= chars@.skip(dot + 1));
            }
            range_equals_lowered(&chars, dot + 1, chars.len(), &word)
        },
        None => false,
    }
}

/// Keeps the names that belong to theme files, in the order given.
pub fn list_theme_files(names: Vec<String>) -> (themes: Vec<String>)
    ensures
        themes@.map_values(|s: String| s@) == names@.map_values(|s: String| s@).filter(
            |n: Seq<char>| is_theme_file(n),
        ),
{
    let ghost all = names@.map_values(|s: String| s@);
    let ghost keep = |n: Seq<char>| is_theme_file(n);
    let mut themes: Vec<String> = Vec::new();
    let mut i: usize = 0;
    proof {
        assert(all.take(0) =~= Seq::<Seq<char>>::empty());
        assert(all.take(0).filter(keep) =~= Seq::<Seq<char>>::empty()) by {
            reveal(Seq::filter);
        }
    }
    while i < names.len()
        invariant
            i <= names.len(),
            all == names@.map_values(|s: String| s@),
            keep == (|n: Seq<char>| is_theme_file(n)),
            themes@.map_values(|s: String| s@) == all.take(i as int).filter(keep),
        decreases names.len() - i,
    {
        let ghost before = themes@.map_values(|s: String| s@);
        let name = names[i].clone();
        proof {
            let shorter = all.take(i as int);
            assert(all.take(i + 1) =~= shorter.push(all[i as int]));
            assert(shorter.push(all[i as int]).drop_last() =~= shorter);
            assert(all.take(i + 1).filter(keep) == if keep(all[i as int]) {
                shorter.filter(keep).push(all[i as int])
            } else {
                shorter.filter(keep)
            }) by {
                reveal(Seq::filter);
            }
        }
        if theme_file(name.as_str()) {
            themes.push(name);
            proof {
                assert(themes@.map_values(|s: String| s@) =~= before.push(all[i as int]));
            }
        }
        i += 1;
    }
    proof {
        assert(all.take(i as int) =~= all);
    }
    themes
}

/// The title shown for a theme file: its name without the extension.
pub fn theme_title(name: &str) -> (title: String)
    ensures
        title@ == file_stem(name@),
{
    let chars = chars_of(name);
    match find_extension_dot(&chars) {
        Some(dot) => {
            proof {
                assert(name@.subrange(0, dot as int) =~= name@.take(dot as int));
            }
            name.substring_char(0, dot).to_owned()
        },
        None => name.to_owned(),
    }
}

/// The title shown in `row` of the theme list. Rows below zero show the
/// first row; rows past the end show nothing.
pub fn theme_row_title(themes: &Vec<String>, row: isize) -> (title: String)
    ensures
        title@ == ({
            let idx = if row < 0 {
                0
            } else {
                row as int
            };
            if idx < themes@.len() {
                file_stem(themes@[idx]@)
            } else {
                Seq::<char>::empty()
            }
        }),
{
    let idx: usize = if row < 0 {
        0
    } else {
        row as usize
    };
    if idx < themes.len() {
        theme_title(themes[idx].as_str())
    } else {
        String::new()
    }
}

/// Whether the theme file `name` is the one that `current` records.
pub fn is_current_theme(name: &str, current: Option<&str>, home: Option<&str>) -> (yes: bool)
    ensures
        yes == (current matches Some(c) && expanded(tilde_path(name@), opt_view(home)) == c@),
{
    match current {
        Some(c) => {
            let tilde = theme_path_to_tilde(name);
            let full = expand_tilde(tilde.as_str(), home);
            let have = chars_of(full.as_str());
            let want = chars_of(c);
            proof {
                assert(have@.subrange(0, have@.len() as int) =~= have@);
            }
            range_equals(&have, 0, have.len(), &want)
        },
        None => false,
    }
}

/// The row of the theme that `current` records: the first theme whose
/// recorded path expands to `current`.
pub fn current_theme_row(themes: &Vec<String>, current: &str, home: Option<&str>) -> (row: Option<
    usize,
>)
    ensures
        row is Some == current_row(themes@.map_values(|s: String| s@), current@, opt_view(home))
            is Some,
        row matches Some(r) ==> current_row(
            themes@.map_values(|s: String| s@),
            current@,
            opt_view(home),
        ) == Some(r as int) && r < themes.len(),
{
    let ghost all = themes@.map_values(|s: String| s@);
    let ghost h = opt_view(home);
    let mut i: usize = 0;
    proof {
        assert(all.skip(0) =~= all);
    }
    while i < themes.len()
        invariant
            i <= themes.len(),
            all == themes@.map_values(|s: String| s@),
            h == opt_view(home),
            current_row(all, current@, h) == match current_row(all.skip(i as int), current@, h) {
                Some(r) => Some(r + i),
                None => None,
            },
        decreases themes.len() - i,
    {
        proof {
            assert(all.skip(i as int).drop_first() =~= all.skip(i + 1));
            assert(all.skip(i as int)[0] == themes@[i as int]@);
        }
        if is_current_theme(themes[i].as_str(), Some(current), home) {
            return Some(i);
        }
        i += 1;
    }
    None
}

/// The theme row that a click selects: the clicked row, or else the selected
/// row, if it is a row of the list.
pub fn clicked_theme_row(clicked: isize, selected: isize, count: usize) -> (row: Option<usize>)
    ensures
        row == ({
            let aimed = if clicked < 0 {
                selected as int
            } else {
                clicked as int
            };
            if 0 <= aimed < count {
                Some(aimed as usize)
            } else {
                None
            }
        }),
{
    let aimed: isize = if clicked < 0 {
        selected
    } else {
        clicked
    };
    if aimed < 0 {
        return None;
    }
    let idx: usize = aimed as usize;
    if idx < count {
        Some(idx)
    } else {
        None
    }
}

/// Keeps a theme from being applied again while it is being applied: the
/// list reload that follows a change reports a selection change of its own.
#[derive(Clone, Copy, Debug)]
pub struct ThemeApplyGuard {
    applying: bool,
}

impl ThemeApplyGuard {
    /// Whether a theme is being applied.
    pub closed spec fn busy(&self) -> bool {
        self.applying
    }

    /// A guard with nothing in progress.
    pub fn new() -> (guard: Self)
        ensures
            !guard.busy(),
    {
        ThemeApplyGuard { applying: false }
    }

    /// Starts applying a theme. Returns `false`, and changes nothing, when one
    /// is being applied already.
    pub fn begin(&mut self) -> (started: bool)
        ensures
            started == !old(self).busy(),
            final(self).busy(),
    {
        let started: bool = !self.applying;
        self.applying = true;
        started
    }

    /// Marks the theme as applied.
    pub fn finish(&mut self)
        ensures
            !final(self).busy(),
    {
        self.applying = false;
    }
}

} // verus!

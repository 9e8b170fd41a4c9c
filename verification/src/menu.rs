//! Layout of the context menu behind a menu-bar icon.
//!
//! The menu starts with the saved bookmarks, in their stored order, and ends
//! with the fixed commands. The host turns each item into a native menu item.

use crate::bookmarks::{
    all_entries, classify, entries_of, is_entry, kind_of, BookmarkList, Entry, EntryKind,
};
use crate::path_util::{ellipsized, opt_view, shorten_home_and_ellipsize, shortened};
use crate::text::lemma_trim_of_trimmed;
use vstd::prelude::*;

verus! {

/// Longest title, in characters, that a folder gets in the menu.
pub const MENU_TITLE_WIDTH: usize = 50;

/// A fixed command of the menu.
#[derive(Clone, Copy, Debug, PartialEq, Eq, Structural)]
pub enum MenuCommand {
    /// Open a new terminal window.
    NewWindow,
    /// Open the bookmark and hotkey editor.
    OpenConfig,
    /// Open the theme picker.
    OpenThemes,
    /// Quit the application.
    Quit,
}

/// One item of the context menu.
#[derive(Debug, PartialEq, Eq)]
pub enum MenuItem {
    /// A separator line.
    Separator,
    /// A title that cannot be clicked.
    Label { title: String },
    /// Opens a new window in `path`; `title` is what the menu shows.
    Folder { title: String, path: String },
    /// One of the fixed commands.
    Command(MenuCommand),
}

/// The mathematical form of a [`MenuItem`].
pub enum MenuItemView {
    Separator,
    Label { title: Seq<char> },
    Folder { title: Seq<char>, path: Seq<char> },
    Command(MenuCommand),
}

impl View for MenuItem {
    type V = MenuItemView;

    open spec fn view(&self) -> MenuItemView {
        match self {
            MenuItem::Separator => MenuItemView::Separator,
            MenuItem::Label { title } => MenuItemView::Label { title: title@ },
            MenuItem::Folder { title, path } => MenuItemView::Folder {
                title: title@,
                path: path@,
            },
            MenuItem::Command(c) => MenuItemView::Command(*c),
        }
    }
}

/// The views of the items of a menu, in order.
pub open spec fn menu_view(menu: Seq<MenuItem>) -> Seq<MenuItemView> {
    menu.map_values(|item: MenuItem| item@)
}

/// The menu item that stands for one bookmark entry. A folder is shown with
/// the home directory abbreviated and shortened to [`MENU_TITLE_WIDTH`]
/// characters, and keeps its full path for opening.
pub open spec fn item_for(entry: Seq<char>, home: Option<Seq<char>>) -> MenuItemView {
    match kind_of(entry) {
        EntryKind::Separator => MenuItemView::Separator,
        EntryKind::Label(text) => MenuItemView::Label { title: text },
        EntryKind::Folder(path) => MenuItemView::Folder {
            title: ellipsized(shortened(path, home), MENU_TITLE_WIDTH as nat),
            path,
        },
    }
}

/// The items for the bookmark entries, one per entry, in order.
pub open spec fn bookmark_items(entries: Seq<Seq<char>>, home: Option<Seq<char>>) -> Seq<
    MenuItemView,
> {
    entries.map_values(|e: Seq<char>| item_for(e, home))
}

/// Whether the entries give the menu anything besides separators.
pub open spec fn has_titled_entry(entries: Seq<Seq<char>>) -> bool {
    exists|i: int| 0 <= i < entries.len() && !(kind_of(#[trigger] entries[i]) is Separator)
}

/// The commands that close every menu.
pub open spec fn fixed_items() -> Seq<MenuItemView> {
    seq![
        MenuItemView::Command(MenuCommand::NewWindow),
        MenuItemView::Command(MenuCommand::OpenConfig),
        MenuItemView::Command(MenuCommand::OpenThemes),
        MenuItemView::Separator,
        MenuItemView::Command(MenuCommand::Quit),
    ]
}

/// The whole menu for a list of entries: the bookmark items, a separator if
/// any of them carries a title, then the fixed commands.
pub open spec fn context_menu(entries: Seq<Seq<char>>, home: Option<Seq<char>>) -> Seq<
    MenuItemView,
> {
    bookmark_items(entries, home) + (if has_titled_entry(entries) {
        seq![MenuItemView::Separator]
    } else {
        Seq::empty()
    }) + fixed_items()
}

/// Builds the context menu from the stored bookmark string.
///
/// `home` is the user's home directory, if known; it only affects titles.
pub fn build_context_menu(saved: &str, home: Option<&str>) -> (menu: Vec<MenuItem>)
    ensures
        menu_view(menu@) == context_menu(entries_of(saved@), opt_view(home)),
        menu@.len() >= 5,
{
    let list = BookmarkList::parse(saved);
    let ghost entries = list@;
    let ghost h = opt_view(home);
    let mut menu: Vec<MenuItem> = Vec::new();
    let mut titled: bool = false;
    let mut i: usize = 0;
    let n: usize = list.len();
    proof {
        assert(menu_view(menu@) =~= bookmark_items(entries.take(0), h));
    }
    while i < n
        invariant
            i <= n == entries.len(),
            entries == list@,
            all_entries(entries),
            h == opt_view(home),
            menu_view(menu@) == bookmark_items(entries.take(i as int), h),
            titled == has_titled_entry(entries.take(i as int)),
        decreases n - i,
    {
        let ghost before = menu_view(menu@);
        let ghost e = entries[i as int];
        let item = match list.entry(i) {
            Some(line) => {
                proof {
                    assert(is_entry(entries[i as int]));
                    lemma_trim_of_trimmed(e);
                }
                match classify(line) {
                    Entry::Separator => MenuItem::Separator,
                    Entry::Label(title) => {
                        titled = true;
                        MenuItem::Label { title }
                    },
                    Entry::Folder(path) => {
                        titled = true;
                        let title = shorten_home_and_ellipsize(
                            path.as_str(),
                            home,
                            MENU_TITLE_WIDTH,
                        );
                        MenuItem::Folder { title, path }
                    },
                }
            },
            None => MenuItem::Separator,
        };
        menu.push(item);
        proof {
            let shorter = entries.take(i as int);
            let longer = entries.take(i + 1);
            assert(longer =~= shorter.push(e));
            assert(item@ == item_for(e, h));
            assert(menu_view(menu@) =~= before.push(item@));
            assert(bookmark_items(longer, h) =~= bookmark_items(shorter, h).push(item_for(e, h)));
            if has_titled_entry(shorter) {
                let k = choose|k: int|
                    0 <= k < shorter.len() && !(kind_of(#[trigger] shorter[k]) is Separator);
                assert(longer[k] == shorter[k]);
            }
            if !(kind_of(e) is Separator) {
                assert(longer[i as int] == e);
            }
            if has_titled_entry(longer) {
                let k = choose|k: int|
                    0 <= k < longer.len() && !(kind_of(#[trigger] longer[k]) is Separator);
                if k < i {
                    assert(shorter[k] == longer[k]);
                }
            }
        }
        i += 1;
    }
    proof {
        assert(entries.take(n as int) =~= entries);
    }
    let ghost listed = menu_view(menu@);
    if titled {
        menu.push(MenuItem::Separator);
    }
    let ghost gap = menu_view(menu@);
    proof {
        assert(gap =~= listed + (if titled {
            seq![MenuItemView::Separator]
        } else {
            Seq::empty()
        }));
    }
    menu.push(MenuItem::Command(MenuCommand::NewWindow));
    menu.push(MenuItem::Command(MenuCommand::OpenConfig));
    menu.push(MenuItem::Command(MenuCommand::OpenThemes));
    menu.push(MenuItem::Separator);
    menu.push(MenuItem::Command(MenuCommand::Quit));
    proof {
        assert(menu_view(menu@) =~= gap + fixed_items());
    }
    menu
}

} // verus!

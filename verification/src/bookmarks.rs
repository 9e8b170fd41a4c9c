//! The bookmark list: an ordered list of entries kept in the preferences
//! store as one string, one entry per line.
//!
//! An entry is a folder path, the separator marker `---`, or a label written
//! as `text:` followed by the label. Reading the stored string trims every
//! line and drops the empty ones; writing joins the entries with newlines.

use crate::path_util::{opt_view, shorten_home, shortened};
use crate::text::{
    chars_of, find, find_in_range, is_trimmed, lemma_find_bounds, lemma_find_is,
    lemma_trim_end_shape, lemma_trim_is_trimmed, lemma_trim_start_shape, range_equals,
    range_starts_with, trim, trim_range, trim_start,
};
use vstd::prelude::*;

verus! {

/// The entries that a stored string holds: its lines, each trimmed, without
/// the lines that are empty after trimming.
pub open spec fn entries_of(s: Seq<char>) -> Seq<Seq<char>>
    decreases s.len(),
    via entries_of_decreases
{
    let cut = find(s, '\n');
    let head = trim(s.take(cut));
    let rest = if cut < s.len() {
        entries_of(s.skip(cut + 1))
    } else {
        Seq::empty()
    };
    if head.len() > 0 {
        seq![head] + rest
    } else {
        rest
    }
}

#[via_fn]
proof fn entries_of_decreases(s: Seq<char>) {
    lemma_find_bounds(s, '\n');
}

/// The stored form of a list: its entries separated by single newlines.
pub open spec fn joined(entries: Seq<Seq<char>>) -> Seq<char>
    decreases entries.len(),
{
    if entries.len() == 0 {
        Seq::empty()
    } else if entries.len() == 1 {
        entries[0]
    } else {
        entries[0] + seq!['\n'] + joined(entries.drop_first())
    }
}

/// An entry that survives storing and reading back unchanged: not empty, no
/// whitespace at either end, and no newline inside.
pub open spec fn is_entry(e: Seq<char>) -> bool {
    &&& e.len() > 0
    &&& is_trimmed(e)
    &&& forall|i: int| 0 <= i < e.len() ==> e[i] != '\n'
}

/// Every element of `list` is an entry in the sense of [`is_entry`].
pub open spec fn all_entries(list: Seq<Seq<char>>) -> bool {
    forall|i: int| 0 <= i < list.len() ==> is_entry(#[trigger] list[i])
}

/// `list` with `path` added at the end unless it is already there.
pub open spec fn appended_unique(list: Seq<Seq<char>>, path: Seq<char>) -> Seq<Seq<char>> {
    if list.contains(path) {
        list
    } else {
        list.push(path)
    }
}

/// Where a new entry goes in a list of `len` entries: directly below the
/// selected row, or at the end when no row of the list is selected.
pub open spec fn insertion_row(len: nat, selected_row: int) -> int {
    if 0 <= selected_row < len {
        selected_row + 1
    } else {
        len as int
    }
}

/// Where a dragged row lands. `to_row` is the row the drop was aimed above,
/// counted before the dragged row is taken out; the result is its index once
/// the row taken from `from` is put back.
pub open spec fn drop_row(len: nat, from: int, to_row: int) -> int {
    let aimed = if to_row < 0 {
        0
    } else if to_row > len {
        len as int
    } else {
        to_row
    };
    if from < aimed {
        aimed - 1
    } else {
        aimed
    }
}

/// `list` after the row `from` has been dragged above `to_row`. A `from`
/// outside the list leaves it as it is.
pub open spec fn moved(list: Seq<Seq<char>>, from: int, to_row: int) -> Seq<Seq<char>> {
    if 0 <= from < list.len() {
        list.remove(from).insert(drop_row(list.len(), from, to_row), list[from])
    } else {
        list
    }
}

/// The marker that stands for a separator line.
pub open spec fn separator_marker() -> Seq<char> {
    seq!['-', '-', '-']
}

/// The prefix that marks a label.
pub open spec fn label_prefix() -> Seq<char> {
    seq!['t', 'e', 'x', 't', ':']
}

/// What an entry stands for.
pub enum EntryKind {
    /// A separator line.
    Separator,
    /// A label that cannot be clicked, with its text.
    Label(Seq<char>),
    /// A folder, with its path.
    Folder(Seq<char>),
}

/// Reads an entry: the separator marker, a label (the text after `text:`,
/// trimmed), or otherwise a folder path.
pub open spec fn kind_of(entry: Seq<char>) -> EntryKind {
    if entry == separator_marker() {
        EntryKind::Separator
    } else if label_prefix().is_prefix_of(entry) {
        EntryKind::Label(trim(entry.skip(5)))
    } else {
        EntryKind::Folder(entry)
    }
}

/// The entry that stores a label typed by the user, if the input holds one.
///
/// Input that is blank gives nothing. A `text:` that the user typed in front
/// is not doubled.
pub open spec fn label_entry(input: Seq<char>) -> Option<Seq<char>> {
    let typed = trim(input);
    if typed.len() == 0 {
        None
    } else if label_prefix().is_prefix_of(typed) {
        Some(label_prefix() + trim(typed.skip(5)))
    } else {
        Some(label_prefix() + typed)
    }
}

/// The text shown in the list editor for `row`. Rows below zero show the
/// first row; rows past the end show nothing. A separator shows
/// `separator_label`, a label its text, a folder its path with the home
/// directory abbreviated.
pub open spec fn row_text(
    list: Seq<Seq<char>>,
    row: int,
    home: Option<Seq<char>>,
    separator_label: Seq<char>,
) -> Seq<char> {
    let idx = if row < 0 {
        0
    } else {
        row
    };
    if idx < list.len() {
        match kind_of(trim(list[idx])) {
            EntryKind::Separator => separator_label,
            EntryKind::Label(text) => text,
            EntryKind::Folder(path) => shortened(path, home),
        }
    } else {
        Seq::empty()
    }
}

/// Appending to a joined list: the new entry follows a newline, unless it is
/// the first.
pub proof fn lemma_joined_push(list: Seq<Seq<char>>, e: Seq<char>)
    ensures
        joined(list.push(e)) == if list.len() == 0 {
            e
        } else {
            joined(list) + seq!['\n'] + e
        },
    decreases list.len(),
{
    let longer = list.push(e);
    if list.len() == 0 {
    } else if list.len() == 1 {
        assert(longer.drop_first() =~= seq![e]);
        assert(joined(longer.drop_first()) == e);
    } else {
        let tail = list.drop_first();
        assert(longer.drop_first() =~= tail.push(e));
        lemma_joined_push(tail, e);
        assert(joined(longer) =~= joined(list) + seq!['\n'] + e);
    }
}

/// Reading back what was stored returns the list, provided each of its
/// elements is an entry.
pub proof fn lemma_read_back(list: Seq<Seq<char>>)
    requires
        all_entries(list),
    ensures
        entries_of(joined(list)) == list,
    decreases list.len(),
{
    let s = joined(list);
    if list.len() == 0 {
        assert(s.take(0) =~= Seq::<char>::empty());
        assert(entries_of(s) =~= list);
    } else {
        let e = list[0];
        assert(is_entry(e));
        lemma_find_is(s, '\n', e.len() as int);
        assert(s.take(e.len() as int) =~= e);
        if list.len() == 1 {
            assert(entries_of(s) =~= list);
        } else {
            let tail = list.drop_first();
            assert forall|i: int| 0 <= i < tail.len() implies is_entry(#[trigger] tail[i]) by {
                assert(tail[i] == list[i + 1]);
            }
            lemma_read_back(tail);
            assert(s.skip(e.len() as int + 1) =~= joined(tail));
            assert(entries_of(s) =~= list);
        }
    }
}

/// Whatever a stored string holds, reading it yields entries only.
pub proof fn lemma_read_gives_entries(s: Seq<char>)
    ensures
        all_entries(entries_of(s)),
    decreases s.len(),
{
    lemma_find_bounds(s, '\n');
    let cut = find(s, '\n');
    let line = s.take(cut);
    let head = trim(line);
    lemma_trim_is_trimmed(line);
    lemma_trim_start_shape(line);
    lemma_trim_end_shape(trim_start(line));
    assert forall|i: int| 0 <= i < head.len() implies head[i] != '\n' by {
        let skipped = line.len() - trim_start(line).len();
        assert(head[i] == trim_start(line)[i]);
        assert(trim_start(line)[i] == line[skipped + i]);
    }
    let rest = if cut < s.len() {
        entries_of(s.skip(cut + 1))
    } else {
        Seq::empty()
    };
    if cut < s.len() {
        lemma_read_gives_entries(s.skip(cut + 1));
    }
    assert forall|i: int| 0 <= i < entries_of(s).len() implies is_entry(
        #[trigger] entries_of(s)[i],
    ) by {
        if head.len() > 0 {
            if i > 0 {
                assert(entries_of(s)[i] == rest[i - 1]);
            }
        }
    }
}

/// Adding a folder to a list, storing the list and reading it back yields the
/// list as it was with the folder at its end, or unchanged when the folder was
/// already in it. The order of the earlier entries is kept.
pub proof fn lemma_append_survives_storage(list: Seq<Seq<char>>, path: Seq<char>)
    requires
        all_entries(list),
        is_entry(path),
    ensures
        entries_of(joined(appended_unique(list, path))) == appended_unique(list, path),
        list.is_prefix_of(appended_unique(list, path)),
        appended_unique(list, path).contains(path),
        list.contains(path) ==> appended_unique(list, path) == list,
        !list.contains(path) ==> appended_unique(list, path) == list.push(path),
{
    let after = appended_unique(list, path);
    assert(list =~= after.subrange(0, list.len() as int));
    if !list.contains(path) {
        assert(after[list.len() as int] == path);
    }
    assert forall|i: int| 0 <= i < after.len() implies is_entry(#[trigger] after[i]) by {
        if i < list.len() {
            assert(after[i] == list[i]);
        }
    }
    lemma_read_back(after);
}

/// Storing what was read and reading it again changes nothing.
pub proof fn lemma_read_is_stable(s: Seq<char>)
    ensures
        entries_of(joined(entries_of(s))) == entries_of(s),
{
    lemma_read_gives_entries(s);
    lemma_read_back(entries_of(s));
}

/// The bookmark list in memory.
#[derive(Debug)]
pub struct BookmarkList {
    entries: Vec<String>,
}

impl View for BookmarkList {
    type V = Seq<Seq<char>>;

    closed spec fn view(&self) -> Seq<Seq<char>> {
        self.entries@.map_values(|e: String| e@)
    }
}

impl BookmarkList {
    /// An empty list.
    pub fn new() -> (list: Self)
        ensures
            list@ == Seq::<Seq<char>>::empty(),
    {
        let list = BookmarkList { entries: Vec::new() };
        proof {
            assert(list@ =~= Seq::<Seq<char>>::empty());
        }
        list
    }

    /// Reads the list from its stored form.
    pub fn parse(saved: &str) -> (list: Self)
        ensures
            list@ == entries_of(saved@),
            all_entries(list@),
    {
        let chars = chars_of(saved);
        let n: usize = chars.len();
        let mut entries: Vec<String> = Vec::new();
        let mut start: usize = 0;
        let mut done: bool = false;
        proof {
            assert(chars@.skip(0) =~= chars@);
            assert(entries@.map_values(|e: String| e@) + entries_of(chars@) =~= entries_of(
                chars@,
            ));
        }
        while !done
            invariant
                start <= n == chars.len(),
                chars@ == saved@,
                !done ==> entries@.map_values(|e: String| e@) + entries_of(
                    chars@.skip(start as int),
                ) == entries_of(chars@),
                done ==> entries@.map_values(|e: String| e@) == entries_of(chars@),
            decreases (n - start) + (if done { 0int } else { 1int }),
        {
            let cut: usize = find_in_range(&chars, start, n, '\n');
            let (a, b) = trim_range(&chars, start, cut);
            let ghost before = entries@.map_values(|e: String| e@);
            let ghost remaining = chars@.skip(start as int);
            proof {
                assert(chars@.subrange(start as int, n as int) =~= remaining);
                assert(remaining.take(cut - start) =~= chars@.subrange(start as int, cut as int));
                if cut < n {
                    assert(remaining.skip(cut - start + 1) =~= chars@.skip(cut + 1));
                }
            }
            if a < b {
                let entry: String = saved.substring_char(a, b).to_owned();
                entries.push(entry);
                proof {
                    assert(entries@.map_values(|e: String| e@) =~= before.push(entry@));
                    assert(before.push(entry@) =~= before + seq![entry@]);
                }
            }
            let ghost after = entries@.map_values(|e: String| e@);
            if cut < n {
                proof {
                    let rest = entries_of(chars@.skip(cut + 1));
                    assert(after + rest =~= before + entries_of(remaining));
                }
                start = cut + 1;
            } else {
                proof {
                    assert(after =~= before + entries_of(remaining));
                }
                done = true;
            }
        }
        let list = BookmarkList { entries };
        proof {
            lemma_read_gives_entries(saved@);
        }
        list
    }

    /// The stored form of the list.
    pub fn join(&self) -> (saved: String)
        ensures
            saved@ == joined(self@),
    {
        let mut saved = String::new();
        let mut i: usize = 0;
        proof {
            assert(self@.take(0) =~= Seq::<Seq<char>>::empty());
        }
        while i < self.entries.len()
            invariant
                i <= self.entries.len(),
                saved@ == joined(self@.take(i as int)),
            decreases self.entries.len() - i,
        {
            proof {
                reveal_strlit("\n");
                assert("\n"@ =~= seq!['\n']);
                lemma_joined_push(self@.take(i as int), self@[i as int]);
                assert(self@.take(i + 1) =~= self@.take(i as int).push(self@[i as int]));
            }
            if i > 0 {
                saved.append("\n");
            }
            saved.append(self.entries[i].as_str());
            proof {
                if i == 0 {
                    assert(saved@ =~= self@[0]);
                }
            }
            i += 1;
        }
        proof {
            assert(self@.take(i as int) =~= self@);
        }
        saved
    }

    /// Number of entries.
    pub fn len(&self) -> (n: usize)
        ensures
            n == self@.len(),
    {
        self.entries.len()
    }

    /// Whether the list holds no entry.
    pub fn is_empty(&self) -> (empty: bool)
        ensures
            empty == (self@.len() == 0),
    {
        self.entries.len() == 0
    }

    /// The entry in `row`, if the list has such a row.
    pub fn entry(&self, row: usize) -> (e: Option<&str>)
        ensures
            row < self@.len() ==> (e matches Some(s) && s@ == self@[row as int]),
            row >= self@.len() ==> e is None,
    {
        if row < self.entries.len() {
            Some(self.entries[row].as_str())
        } else {
            None
        }
    }

    /// Whether `entry` is in the list, compared character by character.
    pub fn contains(&self, entry: &str) -> (found: bool)
        ensures
            found == self@.contains(entry@),
    {
        let wanted = chars_of(entry);
        let mut i: usize = 0;
        while i < self.entries.len()
            invariant
                i <= self.entries.len(),
                wanted@ == entry@,
                forall|j: int| 0 <= j < i ==> self@[j] != entry@,
            decreases self.entries.len() - i,
        {
            let have = chars_of(self.entries[i].as_str());
            let same = range_equals(&have, 0, have.len(), &wanted);
            proof {
                assert(have@.subrange(0, have@.len() as int) =~= have@);
            }
            if same {
                proof {
                    assert(self@[i as int] == entry@);
                }
                return true;
            }
            i += 1;
        }
        false
    }

    /// Adds `path` at the end unless the list already holds it. Returns
    /// whether the list grew.
    pub fn append_unique(&mut self, path: &str) -> (added: bool)
        ensures
            final(self)@ == appended_unique(old(self)@, path@),
            added == !old(self)@.contains(path@),
    {
        if self.contains(path) {
            false
        } else {
            let ghost before = self@;
            self.entries.push(path.to_owned());
            proof {
                assert(self@ =~= before.push(path@));
            }
            true
        }
    }

    /// Inserts `entry` directly below the selected row; with no row of the
    /// list selected (a negative row, or one past the end) it goes to the end.
    pub fn insert_below(&mut self, selected_row: isize, entry: String)
        ensures
            final(self)@ == old(self)@.insert(
                insertion_row(old(self)@.len(), selected_row as int),
                entry@,
            ),
    {
        let at: usize = insertion_index(self.entries.len(), selected_row);
        let ghost before = self@;
        self.entries.insert(at, entry);
        proof {
            assert(self@ =~= before.insert(at as int, entry@));
        }
    }

    /// Removes `row`. A row outside the list removes nothing; the result says
    /// whether an entry was removed.
    pub fn remove_row(&mut self, row: isize) -> (removed: bool)
        ensures
            removed == (0 <= row < old(self)@.len()),
            removed ==> final(self)@ == old(self)@.remove(row as int),
            !removed ==> final(self)@ == old(self)@,
    {
        if row < 0 {
            return false;
        }
        let idx: usize = row as usize;
        if idx >= self.entries.len() {
            return false;
        }
        let ghost before = self@;
        let _ = self.entries.remove(idx);
        proof {
            assert(self@ =~= before.remove(row as int));
        }
        true
    }

    /// Moves the row `from` so that it lands above what was row `to_row`.
    /// A `from` outside the list moves nothing; the result says whether a row
    /// was moved.
    pub fn move_row(&mut self, from: isize, to_row: isize) -> (moved_it: bool)
        ensures
            moved_it == (0 <= from < old(self)@.len()),
            final(self)@ == moved(old(self)@, from as int, to_row as int),
            final(self)@.len() == old(self)@.len(),
    {
        if from < 0 {
            return false;
        }
        let src: usize = from as usize;
        let len: usize = self.entries.len();
        if src >= len {
            return false;
        }
        let mut dst: usize = if to_row < 0 {
            0
        } else if to_row as usize > len {
            len
        } else {
            to_row as usize
        };
        if src < dst {
            dst = dst - 1;
        }
        let ghost before = self@;
        let item = self.entries.remove(src);
        proof {
            assert(self@ =~= before.remove(from as int));
            assert(item@ == before[from as int]);
        }
        let ghost between = self@;
        self.entries.insert(dst, item);
        proof {
            assert(self@ =~= between.insert(dst as int, item@));
        }
        true
    }

    /// The text that the list editor shows for `row`; see [`row_text`].
    pub fn row_text(&self, row: isize, home: Option<&str>, separator_label: &str) -> (shown:
        String)
        ensures
            shown@ == row_text(self@, row as int, opt_view(home), separator_label@),
    {
        let idx: usize = if row < 0 {
            0
        } else {
            row as usize
        };
        if idx < self.entries.len() {
            match classify(self.entries[idx].as_str()) {
                Entry::Separator => separator_label.to_owned(),
                Entry::Label(text) => text,
                Entry::Folder(path) => shorten_home(path.as_str(), home),
            }
        } else {
            String::new()
        }
    }
}

/// What an entry stands for, with the text that belongs to it.
#[derive(Debug, PartialEq, Eq)]
pub enum Entry {
    /// A separator line.
    Separator,
    /// A label that cannot be clicked.
    Label(String),
    /// A folder to open a window in.
    Folder(String),
}

impl View for Entry {
    type V = EntryKind;

    open spec fn view(&self) -> EntryKind {
        match self {
            Entry::Separator => EntryKind::Separator,
            Entry::Label(text) => EntryKind::Label(text@),
            Entry::Folder(path) => EntryKind::Folder(path@),
        }
    }
}

/// Index at which [`BookmarkList::insert_below`] inserts.
pub fn insertion_index(len: usize, selected_row: isize) -> (at: usize)
    ensures
        at == insertion_row(len as nat, selected_row as int),
        at <= len,
{
    if selected_row >= 0 && (selected_row as usize) < len {
        selected_row as usize + 1
    } else {
        len
    }
}

/// Reads one line of the stored list: trims it and tells what it stands for.
pub fn classify(line: &str) -> (entry: Entry)
    ensures
        entry@ == kind_of(trim(line@)),
{
    let chars = chars_of(line);
    let (a, b) = trim_range(&chars, 0, chars.len());
    let marker = chars_of("---");
    let prefix = chars_of("text:");
    proof {
        reveal_strlit("---");
        reveal_strlit("text:");
        assert(marker@ =~= separator_marker());
        assert(prefix@ =~= label_prefix());
        assert(chars@.subrange(0, chars@.len() as int) =~= line@);
    }
    let ghost raw = chars@.subrange(a as int, b as int);
    if range_equals(&chars, a, b, &marker) {
        Entry::Separator
    } else if range_starts_with(&chars, a, b, &prefix) {
        let (c, d) = trim_range(&chars, a + 5, b);
        proof {
            assert(raw.skip(5) =~= chars@.subrange(a + 5, b as int));
        }
        Entry::Label(line.substring_char(c, d).to_owned())
    } else {
        Entry::Folder(line.substring_char(a, b).to_owned())
    }
}

/// The entry that stores a label typed by the user; see [`label_entry`].
pub fn text_entry(input: &str) -> (entry: Option<String>)
    ensures
        (entry is Some) == (label_entry(input@) is Some),
        entry matches Some(e) ==> Some(e@) == label_entry(input@),
{
    let chars = chars_of(input);
    let (a, b) = trim_range(&chars, 0, chars.len());
    proof {
        assert(chars@.subrange(0, chars@.len() as int) =~= input@);
    }
    if a == b {
        return None;
    }
    let prefix = chars_of("text:");
    proof {
        reveal_strlit("text:");
        assert(prefix@ =~= label_prefix());
    }
    let ghost typed = chars@.subrange(a as int, b as int);
    let mut entry = String::from_str("text:");
    if range_starts_with(&chars, a, b, &prefix) {
        let (c, d) = trim_range(&chars, a + 5, b);
        proof {
            assert(typed.skip(5) =~= chars@.subrange(a + 5, b as int));
        }
        entry.append(input.substring_char(c, d));
    } else {
        entry.append(input.substring_char(a, b));
    }
    Some(entry)
}

/// The entry that stands for a separator line.
pub fn separator_entry() -> (entry: String)
    ensures
        entry@ == separator_marker(),
{
    proof {
        reveal_strlit("---");
        assert("---"@ =~= separator_marker());
    }
    String::from_str("---")
}

/// The stored list with the folder `path` added at its end, unless the list
/// already holds it.
///
/// When `path` is an entry in the sense of [`is_entry`], reading the result
/// back gives the list that was read from `saved`, in its order, followed by
/// `path` if it was new.
pub fn append_folder_path(saved: &str, path: &str) -> (stored: String)
    ensures
        stored@ == joined(appended_unique(entries_of(saved@), path@)),
        is_entry(path@) ==> entries_of(stored@) == appended_unique(entries_of(saved@), path@),
{
    let mut list = BookmarkList::parse(saved);
    let _ = list.append_unique(path);
    proof {
        if is_entry(path@) {
            lemma_append_survives_storage(entries_of(saved@), path@);
        }
    }
    list.join()
}

/// Remembers which row is being dragged in the list editor, from the moment
/// the drag starts until the drop is handled.
#[derive(Clone, Copy, Debug)]
pub struct DragSource {
    row: isize,
}

impl DragSource {
    /// The row being dragged; negative when no drag is under way.
    pub closed spec fn dragged(&self) -> int {
        self.row as int
    }

    /// No drag under way.
    pub fn new() -> (source: Self)
        ensures
            source.dragged() == -1,
    {
        DragSource { row: -1 }
    }

    /// Notes that `row` is being dragged.
    pub fn start(&mut self, row: isize)
        ensures
            final(self).dragged() == row,
    {
        self.row = row;
    }

    /// Hands out the dragged row and forgets it: a second take, without a new
    /// drag, gives `-1`.
    pub fn take(&mut self) -> (row: isize)
        ensures
            row == old(self).dragged(),
            final(self).dragged() == -1,
    {
        let row: isize = self.row;
        self.row = -1;
        row
    }
}

} // verus!

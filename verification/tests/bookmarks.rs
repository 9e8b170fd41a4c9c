use alacritty_macos::bookmarks::{
    append_folder_path, classify, insertion_index, separator_entry, text_entry, BookmarkList,
    DragSource, Entry,
};

fn entries(list: &BookmarkList) -> Vec<String> {
    let mut out = Vec::new();
    let mut i = 0;
    while let Some(e) = list.entry(i) {
        out.push(e.to_string());
        i += 1;
    }
    out
}

fn std_lines(saved: &str) -> Vec<String> {
    saved.lines().map(|l| l.trim().to_string()).filter(|l| !l.is_empty()).collect()
}

#[test]
fn parse_trims_lines_and_drops_empty_ones() {
    let list = BookmarkList::parse("  /a/b  \n\n---\n \t \ntext: hello \n/c");
    assert_eq!(entries(&list), vec!["/a/b", "---", "text: hello", "/c"]);
    assert_eq!(list.len(), 4);
    assert!(!list.is_empty());
}

#[test]
fn parse_of_nothing_is_empty() {
    assert!(BookmarkList::parse("").is_empty());
    assert!(BookmarkList::parse("\n\n").is_empty());
    assert!(BookmarkList::parse("  \n \r\n").is_empty());
    assert!(BookmarkList::new().is_empty());
    assert_eq!(BookmarkList::new().join(), "");
}

#[test]
fn parse_agrees_with_lines_trim_filter() {
    let samples = [
        "",
        "a",
        "a\n",
        "a\nb",
        "a\r\nb\r\n",
        "\n a \n\n b\n",
        "x\ry\nz",
        " \u{a0}p\u{3000}\n---\ntext:q",
        "trailing  \n\n\n",
    ];
    for s in samples {
        assert_eq!(entries(&BookmarkList::parse(s)), std_lines(s), "input {:?}", s);
    }
}

#[test]
fn join_separates_entries_with_newlines() {
    let list = BookmarkList::parse("a\n\nb\n c ");
    assert_eq!(list.join(), "a\nb\nc");
    assert_eq!(BookmarkList::parse("only").join(), "only");
}

#[test]
fn entry_past_the_end_is_none() {
    let list = BookmarkList::parse("a\nb");
    assert_eq!(list.entry(0), Some("a"));
    assert_eq!(list.entry(1), Some("b"));
    assert_eq!(list.entry(2), None);
}

#[test]
fn contains_compares_whole_entries() {
    let list = BookmarkList::parse("/a/b\n/c");
    assert!(list.contains("/a/b"));
    assert!(list.contains("/c"));
    assert!(!list.contains("/a"));
    assert!(!list.contains("/a/b/"));
    assert!(!list.contains(""));
}

#[test]
fn append_unique_adds_new_paths_at_the_end() {
    let mut list = BookmarkList::parse("/a\n/b");
    assert!(list.append_unique("/c"));
    assert_eq!(entries(&list), vec!["/a", "/b", "/c"]);
}

#[test]
fn append_unique_suppresses_duplicates() {
    let mut list = BookmarkList::parse("/a\n/b");
    assert!(!list.append_unique("/a"));
    assert_eq!(entries(&list), vec!["/a", "/b"]);
}

#[test]
fn bookmark_list_round_trip() {
    let mut list = BookmarkList::parse("/Users/alice/src\n---\ntext:Work");
    list.append_unique("/Users/alice/notes");
    list.append_unique("/Users/alice/src");
    let stored = list.join();
    assert_eq!(stored, "/Users/alice/src\n---\ntext:Work\n/Users/alice/notes");
    let again = BookmarkList::parse(&stored);
    assert_eq!(entries(&again), entries(&list));
    assert_eq!(
        entries(&again),
        vec!["/Users/alice/src", "---", "text:Work", "/Users/alice/notes"]
    );
}

#[test]
fn append_folder_path_stores_the_appended_list() {
    assert_eq!(append_folder_path("", "/a"), "/a");
    assert_eq!(append_folder_path("/a\n/b\n", "/c"), "/a\n/b\n/c");
    assert_eq!(append_folder_path(" /a \n\n/b", "/a"), "/a\n/b");
}

#[test]
fn a_path_with_outer_spaces_does_not_survive_storage() {
    let stored = append_folder_path("/a", " /b ");
    assert_eq!(stored, "/a\n /b ");
    assert_eq!(entries(&BookmarkList::parse(&stored)), vec!["/a", "/b"]);
}

#[test]
fn insertion_index_is_below_the_selected_row() {
    assert_eq!(insertion_index(3, 0), 1);
    assert_eq!(insertion_index(3, 2), 3);
    assert_eq!(insertion_index(3, 3), 3);
    assert_eq!(insertion_index(3, 7), 3);
    assert_eq!(insertion_index(3, -1), 3);
    assert_eq!(insertion_index(0, 0), 0);
    assert_eq!(insertion_index(0, -1), 0);
}

#[test]
fn insert_below_puts_the_entry_after_the_selection() {
    let mut list = BookmarkList::parse("a\nb\nc");
    list.insert_below(0, separator_entry());
    assert_eq!(entries(&list), vec!["a", "---", "b", "c"]);
    list.insert_below(-1, "end".to_string());
    assert_eq!(entries(&list), vec!["a", "---", "b", "c", "end"]);
    list.insert_below(4, "last".to_string());
    assert_eq!(entries(&list), vec!["a", "---", "b", "c", "end", "last"]);
    list.insert_below(99, "far".to_string());
    assert_eq!(entries(&list), vec!["a", "---", "b", "c", "end", "last", "far"]);
}

#[test]
fn insert_below_into_an_empty_list() {
    let mut list = BookmarkList::new();
    list.insert_below(0, "x".to_string());
    assert_eq!(entries(&list), vec!["x"]);
}

#[test]
fn remove_row_removes_rows_of_the_list_only() {
    let mut list = BookmarkList::parse("a\nb\nc");
    assert!(!list.remove_row(-1));
    assert!(!list.remove_row(3));
    assert_eq!(entries(&list), vec!["a", "b", "c"]);
    assert!(list.remove_row(1));
    assert_eq!(entries(&list), vec!["a", "c"]);
    assert!(list.remove_row(1));
    assert!(list.remove_row(0));
    assert!(!list.remove_row(0));
    assert!(list.is_empty());
}

#[test]
fn move_row_downwards_lands_above_the_target_row() {
    let mut list = BookmarkList::parse("a\nb\nc\nd");
    assert!(list.move_row(0, 2));
    assert_eq!(entries(&list), vec!["b", "a", "c", "d"]);
    let mut list = BookmarkList::parse("a\nb\nc\nd");
    assert!(list.move_row(0, 4));
    assert_eq!(entries(&list), vec!["b", "c", "d", "a"]);
    let mut list = BookmarkList::parse("a\nb\nc\nd");
    assert!(list.move_row(1, 99));
    assert_eq!(entries(&list), vec!["a", "c", "d", "b"]);
}

#[test]
fn move_row_upwards_lands_on_the_target_row() {
    let mut list = BookmarkList::parse("a\nb\nc\nd");
    assert!(list.move_row(3, 1));
    assert_eq!(entries(&list), vec!["a", "d", "b", "c"]);
    let mut list = BookmarkList::parse("a\nb\nc\nd");
    assert!(list.move_row(2, -5));
    assert_eq!(entries(&list), vec!["c", "a", "b", "d"]);
}

#[test]
fn move_row_onto_itself_changes_nothing() {
    let mut list = BookmarkList::parse("a\nb\nc");
    assert!(list.move_row(1, 1));
    assert_eq!(entries(&list), vec!["a", "b", "c"]);
    assert!(list.move_row(1, 2));
    assert_eq!(entries(&list), vec!["a", "b", "c"]);
}

#[test]
fn move_row_from_outside_is_refused() {
    let mut list = BookmarkList::parse("a\nb");
    assert!(!list.move_row(-1, 0));
    assert!(!list.move_row(2, 0));
    assert_eq!(entries(&list), vec!["a", "b"]);
    let mut empty = BookmarkList::new();
    assert!(!empty.move_row(0, 0));
}

#[test]
fn classify_tells_the_three_kinds_apart() {
    assert_eq!(classify("---"), Entry::Separator);
    assert_eq!(classify("  ---  "), Entry::Separator);
    assert_eq!(classify("----"), Entry::Folder("----".to_string()));
    assert_eq!(classify("text: Work stuff "), Entry::Label("Work stuff".to_string()));
    assert_eq!(classify("text:"), Entry::Label(String::new()));
    assert_eq!(classify("Text:x"), Entry::Folder("Text:x".to_string()));
    assert_eq!(classify(" /a/b "), Entry::Folder("/a/b".to_string()));
    assert_eq!(classify(""), Entry::Folder(String::new()));
}

#[test]
fn text_entry_prefixes_the_label() {
    assert_eq!(text_entry("hello"), Some("text:hello".to_string()));
    assert_eq!(text_entry("  hello world  "), Some("text:hello world".to_string()));
}

#[test]
fn text_entry_does_not_double_the_prefix() {
    assert_eq!(text_entry("text: hello "), Some("text:hello".to_string()));
    assert_eq!(text_entry(" text:"), Some("text:".to_string()));
    assert_eq!(text_entry("text:text:x"), Some("text:text:x".to_string()));
}

#[test]
fn text_entry_of_blank_input_is_nothing() {
    assert_eq!(text_entry(""), None);
    assert_eq!(text_entry("   \t"), None);
}

#[test]
fn row_text_shows_each_kind_in_its_way() {
    let list = BookmarkList::parse("/Users/alice/src\n---\ntext: Work \n/opt/x");
    let home = Some("/Users/alice");
    assert_eq!(list.row_text(0, home, "-- line --"), "~/src");
    assert_eq!(list.row_text(1, home, "-- line --"), "-- line --");
    assert_eq!(list.row_text(2, home, "-- line --"), "Work");
    assert_eq!(list.row_text(3, home, "-- line --"), "/opt/x");
    assert_eq!(list.row_text(0, None, "-- line --"), "/Users/alice/src");
}

#[test]
fn row_text_outside_the_list() {
    let list = BookmarkList::parse("/a\n/b");
    assert_eq!(list.row_text(-3, None, "sep"), "/a");
    assert_eq!(list.row_text(2, None, "sep"), "");
    assert_eq!(BookmarkList::new().row_text(-1, None, "sep"), "");
    assert_eq!(BookmarkList::new().row_text(0, None, "sep"), "");
}

#[test]
fn separator_entry_is_three_dashes() {
    assert_eq!(separator_entry(), "---");
    assert_eq!(classify(&separator_entry()), Entry::Separator);
}

#[test]
fn drag_source_is_taken_once() {
    let mut drag = DragSource::new();
    assert_eq!(drag.take(), -1);
    drag.start(4);
    assert_eq!(drag.take(), 4);
    assert_eq!(drag.take(), -1);
}

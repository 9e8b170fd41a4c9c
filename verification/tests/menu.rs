use alacritty_macos::menu::{build_context_menu, MenuCommand, MenuItem, MENU_TITLE_WIDTH};

fn fixed_tail() -> Vec<MenuItem> {
    vec![
        MenuItem::Command(MenuCommand::NewWindow),
        MenuItem::Command(MenuCommand::OpenConfig),
        MenuItem::Command(MenuCommand::OpenThemes),
        MenuItem::Separator,
        MenuItem::Command(MenuCommand::Quit),
    ]
}

#[test]
fn menu_without_bookmarks_has_the_fixed_commands_only() {
    assert_eq!(build_context_menu("", None), fixed_tail());
    assert_eq!(build_context_menu("\n  \n", Some("/Users/alice")), fixed_tail());
}

#[test]
fn menu_lists_bookmarks_before_the_commands() {
    let menu = build_context_menu(
        "/Users/alice/src\n---\ntext: Work \n/opt/tools\n",
        Some("/Users/alice"),
    );
    let mut expected = vec![
        MenuItem::Folder { title: "~/src".to_string(), path: "/Users/alice/src".to_string() },
        MenuItem::Separator,
        MenuItem::Label { title: "Work".to_string() },
        MenuItem::Folder { title: "/opt/tools".to_string(), path: "/opt/tools".to_string() },
        MenuItem::Separator,
    ];
    expected.extend(fixed_tail());
    assert_eq!(menu, expected);
}

#[test]
fn separators_alone_add_no_dividing_line() {
    let mut expected = vec![MenuItem::Separator, MenuItem::Separator];
    expected.extend(fixed_tail());
    assert_eq!(build_context_menu("---\n---", None), expected);
}

#[test]
fn a_label_alone_adds_the_dividing_line() {
    let mut expected = vec![MenuItem::Label { title: "Note".to_string() }, MenuItem::Separator];
    expected.extend(fixed_tail());
    assert_eq!(build_context_menu("text:Note", None), expected);
}

#[test]
fn long_folder_titles_are_cut_in_the_middle() {
    let path = "/Users/alice/Documents/projects/a-very-long-project-name/with/many/levels/inside";
    let menu = build_context_menu(path, Some("/Users/alice"));
    match &menu[0] {
        MenuItem::Folder { title, path: kept } => {
            assert_eq!(kept, path);
            assert_eq!(title.chars().count(), MENU_TITLE_WIDTH);
            assert_eq!(title, "~/Documents/projects/a-.../with/many/levels/inside");
        },
        other => panic!("unexpected item {:?}", other),
    }
    assert_eq!(menu.len(), 7);
}

#[test]
fn menu_title_width_is_fifty() {
    assert_eq!(MENU_TITLE_WIDTH, 50);
}

use alacritty_macos::path_util::shorten_home;
use alacritty_macos::theme::{
    alacritty_config_path, clicked_theme_row, current_theme_row, expand_tilde, is_current_theme,
    join_path, list_theme_files, theme_dir_path, theme_file, theme_path_to_tilde, theme_row_title,
    theme_title, ThemeApplyGuard,
};
use std::path::Path;

fn names(list: &[&str]) -> Vec<String> {
    list.iter().map(|s| s.to_string()).collect()
}

#[test]
fn expand_tilde_puts_the_home_directory_in_front() {
    assert_eq!(expand_tilde("~/x/y", Some("/Users/alice")), "/Users/alice/x/y");
    assert_eq!(expand_tilde("~", Some("/Users/alice")), "/Users/alice");
    assert_eq!(expand_tilde("~bob/x", Some("/Users/alice")), "/Users/alicebob/x");
}

#[test]
fn expand_tilde_leaves_other_paths_alone() {
    assert_eq!(expand_tilde("/x/~", Some("/Users/alice")), "/x/~");
    assert_eq!(expand_tilde("", Some("/Users/alice")), "");
    assert_eq!(expand_tilde("~/x", None), "~/x");
}

#[test]
fn expand_undoes_shorten_under_home() {
    let home = Some("/Users/alice");
    for p in ["/Users/alice", "/Users/alice/", "/Users/alice/a/b.toml"] {
        let short = shorten_home(p, home);
        assert_eq!(expand_tilde(&short, home), p);
    }
}

#[test]
fn join_path_agrees_with_std() {
    for base in ["/Users/alice", "/Users/alice/", "/", "", "rel", "a/b/"] {
        for part in [".config", "alacritty.toml", "../x/cmd.png", "themes"] {
            assert_eq!(
                join_path(base, part),
                Path::new(base).join(part).to_string_lossy(),
                "base {:?} part {:?}",
                base,
                part
            );
        }
    }
}

#[test]
fn config_path_is_below_home() {
    assert_eq!(
        alacritty_config_path(Some("/Users/alice")),
        Some("/Users/alice/.config/alacritty/alacritty.toml".to_string())
    );
    assert_eq!(
        alacritty_config_path(Some("/")),
        Some("/.config/alacritty/alacritty.toml".to_string())
    );
    assert_eq!(alacritty_config_path(None), None);
}

#[test]
fn theme_dir_is_below_home() {
    assert_eq!(
        theme_dir_path(Some("/Users/alice")),
        Some("/Users/alice/.config/alacritty/themes/themes".to_string())
    );
    assert_eq!(theme_dir_path(None), None);
}

#[test]
fn theme_path_to_tilde_names_the_theme_directory() {
    assert_eq!(
        theme_path_to_tilde("nord.toml"),
        "~/.config/alacritty/themes/themes/nord.toml"
    );
    assert_eq!(theme_path_to_tilde(""), "~/.config/alacritty/themes/themes/");
}

#[test]
fn theme_files_end_in_toml() {
    assert!(theme_file("nord.toml"));
    assert!(theme_file("nord.TOML"));
    assert!(theme_file("a.b.Toml"));
    assert!(theme_file("..toml"));
    assert!(!theme_file("nord.tom"));
    assert!(!theme_file("nord.toml.bak"));
    assert!(!theme_file("toml"));
    assert!(!theme_file(".toml"));
    assert!(!theme_file("nord."));
    assert!(!theme_file(""));
    assert!(!theme_file("nord.tomł"));
}

#[test]
fn theme_file_agrees_with_std_extension() {
    for name in
        ["nord.toml", "N.TOML", ".toml", "a.", "a", "a.b.c", ".a.toml", "x.toml ", "é.toml", "a..toml"]
    {
        let std_says = Path::new(name)
            .extension()
            .and_then(|e| e.to_str())
            .map(|e| e.eq_ignore_ascii_case("toml"))
            .unwrap_or(false);
        assert_eq!(theme_file(name), std_says, "name {:?}", name);
    }
}

#[test]
fn list_theme_files_keeps_themes_in_order() {
    assert_eq!(
        list_theme_files(names(&["b.toml", "README.md", "a.TOML", ".toml", "c.toml.bak", "z.toml"])),
        names(&["b.toml", "a.TOML", "z.toml"])
    );
    assert_eq!(list_theme_files(Vec::new()), Vec::<String>::new());
    assert_eq!(list_theme_files(names(&["x", "y.txt"])), Vec::<String>::new());
}

#[test]
fn theme_title_is_the_file_stem() {
    assert_eq!(theme_title("nord.toml"), "nord");
    assert_eq!(theme_title("a.b.toml"), "a.b");
    assert_eq!(theme_title(".hidden"), ".hidden");
    assert_eq!(theme_title("plain"), "plain");
    assert_eq!(theme_title("dot."), "dot");
    assert_eq!(theme_title(""), "");
}

#[test]
fn theme_title_agrees_with_std_file_stem() {
    for name in ["nord.toml", ".toml", "a.", "a", "a.b.c", ".a.toml", "é.toml", "a..toml"] {
        let std_says = Path::new(name).file_stem().and_then(|e| e.to_str()).unwrap_or("");
        assert_eq!(theme_title(name), std_says, "name {:?}", name);
    }
}

#[test]
fn theme_row_title_outside_the_list() {
    let themes = names(&["a.toml", "b.toml"]);
    assert_eq!(theme_row_title(&themes, 1), "b");
    assert_eq!(theme_row_title(&themes, -1), "a");
    assert_eq!(theme_row_title(&themes, 2), "");
    assert_eq!(theme_row_title(&Vec::new(), 0), "");
}

#[test]
fn current_theme_is_found_by_its_expanded_path() {
    let themes = names(&["a.toml", "nord.toml", "z.toml"]);
    let home = Some("/Users/alice");
    assert_eq!(
        current_theme_row(&themes, "/Users/alice/.config/alacritty/themes/themes/nord.toml", home),
        Some(1)
    );
    assert_eq!(
        current_theme_row(&themes, "/Users/alice/.config/alacritty/themes/themes/none.toml", home),
        None
    );
    assert_eq!(
        current_theme_row(&themes, "~/.config/alacritty/themes/themes/z.toml", None),
        Some(2)
    );
    assert_eq!(current_theme_row(&Vec::new(), "x", home), None);
}

#[test]
fn the_first_matching_theme_is_the_current_row() {
    let themes = names(&["a.toml", "b.toml", "a.toml"]);
    assert_eq!(
        current_theme_row(&themes, "/h/.config/alacritty/themes/themes/a.toml", Some("/h")),
        Some(0)
    );
}

#[test]
fn is_current_theme_compares_expanded_paths() {
    let home = Some("/Users/alice");
    let current = "/Users/alice/.config/alacritty/themes/themes/nord.toml";
    assert!(is_current_theme("nord.toml", Some(current), home));
    assert!(!is_current_theme("nord.tom", Some(current), home));
    assert!(!is_current_theme("nord.toml", None, home));
    assert!(!is_current_theme("nord.toml", Some(current), None));
}

#[test]
fn a_click_selects_the_clicked_or_else_the_selected_row() {
    assert_eq!(clicked_theme_row(2, 0, 5), Some(2));
    assert_eq!(clicked_theme_row(-1, 3, 5), Some(3));
    assert_eq!(clicked_theme_row(-1, -1, 5), None);
    assert_eq!(clicked_theme_row(5, 0, 5), None);
    assert_eq!(clicked_theme_row(-1, 5, 5), None);
    assert_eq!(clicked_theme_row(0, 0, 0), None);
    assert_eq!(clicked_theme_row(4, -1, 5), Some(4));
}

#[test]
fn theme_apply_guard_refuses_reentry() {
    let mut guard = ThemeApplyGuard::new();
    assert!(guard.begin());
    assert!(!guard.begin());
    guard.finish();
    assert!(guard.begin());
    guard.finish();
    guard.finish();
    assert!(guard.begin());
}

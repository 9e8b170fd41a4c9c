use alacritty_macos::config::{
    current_theme_in, read_current_theme_expanded, select_theme, selected_theme_in,
    write_theme_to_config, ThemeConfigError,
};
use toml_edit::{DocumentMut, Item};

const THEME: &str = "~/.config/alacritty/themes/themes/nord.toml";

fn doc(text: &str) -> DocumentMut {
    text.parse::<DocumentMut>().unwrap()
}

#[test]
fn theme_is_the_first_string_of_the_import_array() {
    let text = "[general]\nimport = [\"~/a.toml\", \"~/b.toml\"]\n";
    assert_eq!(
        read_current_theme_expanded(text, Some("/Users/alice")),
        Some("/Users/alice/a.toml".to_string())
    );
    assert_eq!(read_current_theme_expanded(text, None), Some("~/a.toml".to_string()));
}

#[test]
fn elements_that_are_no_strings_are_skipped() {
    let text = "[general]\nimport = [1, true, [\"x\"], \"/abs/c.toml\", \"~/d.toml\"]\n";
    assert_eq!(
        read_current_theme_expanded(text, Some("/h")),
        Some("/abs/c.toml".to_string())
    );
}

#[test]
fn an_import_array_without_strings_selects_nothing() {
    assert_eq!(read_current_theme_expanded("[general]\nimport = []\n", Some("/h")), None);
    assert_eq!(read_current_theme_expanded("[general]\nimport = [1, 2]\n", Some("/h")), None);
}

#[test]
fn a_single_import_string_is_the_theme() {
    assert_eq!(
        read_current_theme_expanded("[general]\nimport = \"~/one.toml\"\n", Some("/h")),
        Some("/h/one.toml".to_string())
    );
}

#[test]
fn an_import_of_another_kind_selects_nothing() {
    assert_eq!(read_current_theme_expanded("[general]\nimport = 3\n", Some("/h")), None);
    assert_eq!(
        read_current_theme_expanded("[general]\nimport = { a = \"x\" }\n", Some("/h")),
        None
    );
    assert_eq!(
        read_current_theme_expanded("[[general.import]]\nname = \"x\"\n", Some("/h")),
        None
    );
}

#[test]
fn a_missing_general_or_import_selects_nothing() {
    assert_eq!(read_current_theme_expanded("", Some("/h")), None);
    assert_eq!(read_current_theme_expanded("[window]\nopacity = 1\n", Some("/h")), None);
    assert_eq!(read_current_theme_expanded("[general]\nlive = true\n", Some("/h")), None);
    assert_eq!(read_current_theme_expanded("import = [\"~/a.toml\"]\n", Some("/h")), None);
}

#[test]
fn a_general_that_is_no_table_with_a_header_selects_nothing() {
    assert_eq!(
        read_current_theme_expanded("general = { import = [\"~/a.toml\"] }\n", Some("/h")),
        None
    );
    assert_eq!(read_current_theme_expanded("general = \"x\"\n", Some("/h")), None);
}

#[test]
fn a_dotted_general_key_counts_as_a_table() {
    assert_eq!(
        read_current_theme_expanded("general.import = [\"~/a.toml\"]\n", Some("/h")),
        Some("/h/a.toml".to_string())
    );
}

#[test]
fn text_that_is_not_toml_selects_nothing() {
    assert_eq!(read_current_theme_expanded("[general\nimport = [", Some("/h")), None);
    assert_eq!(read_current_theme_expanded("= 3", None), None);
}

#[test]
fn selected_theme_in_reads_a_parsed_document() {
    let d = doc("[general]\nimport = [\"~/a.toml\"]\n");
    assert_eq!(selected_theme_in(&d), Some("~/a.toml".to_string()));
    assert_eq!(current_theme_in(&d, Some("/h")), Some("/h/a.toml".to_string()));
    assert_eq!(current_theme_in(&d, None), Some("~/a.toml".to_string()));
    assert_eq!(selected_theme_in(&DocumentMut::new()), None);
}

#[test]
fn writing_into_nothing_creates_the_general_table() {
    let text = write_theme_to_config(None, THEME).unwrap();
    assert_eq!(
        text,
        "[general]\nimport = [\"~/.config/alacritty/themes/themes/nord.toml\"]\n"
    );
    assert_eq!(read_current_theme_expanded(&text, None), Some(THEME.to_string()));
}

#[test]
fn writing_into_an_empty_text_creates_the_general_table() {
    let text = write_theme_to_config(Some(""), THEME).unwrap();
    assert_eq!(read_current_theme_expanded(&text, None), Some(THEME.to_string()));
    assert!(doc(&text)["general"].is_table());
}

#[test]
fn writing_replaces_the_import_and_keeps_the_rest() {
    let old = "# my settings\n[window]\nopacity = 0.9\n\n[general]\nlive_config_reload = true\nimport = [\"~/old.toml\", \"~/other.toml\"]\n\n[font]\nsize = 12\n";
    let text = write_theme_to_config(Some(old), THEME).unwrap();
    let d = doc(&text);
    assert_eq!(selected_theme_in(&d), Some(THEME.to_string()));
    assert_eq!(d["general"]["import"].as_array().unwrap().len(), 1);
    assert_eq!(d["general"]["live_config_reload"].as_bool(), Some(true));
    assert_eq!(d["window"]["opacity"].as_float(), Some(0.9));
    assert_eq!(d["font"]["size"].as_integer(), Some(12));
    assert!(text.starts_with("# my settings\n"));
    assert!(!text.contains("old.toml"));
}

#[test]
fn writing_adds_an_import_to_a_general_without_one() {
    let text = write_theme_to_config(Some("[general]\nlive = true\n"), THEME).unwrap();
    let d = doc(&text);
    assert_eq!(selected_theme_in(&d), Some(THEME.to_string()));
    assert_eq!(d["general"]["live"].as_bool(), Some(true));
}

#[test]
fn writing_into_an_inline_general_keeps_it_inline() {
    let text = write_theme_to_config(Some("general = { live = true }\n"), THEME).unwrap();
    let d = doc(&text);
    assert!(d["general"].is_inline_table());
    assert_eq!(
        d["general"]["import"].as_array().unwrap().get(0).unwrap().as_str(),
        Some(THEME)
    );
    assert_eq!(d["general"]["live"].as_bool(), Some(true));
    assert_eq!(selected_theme_in(&d), None);
}

#[test]
fn writing_refuses_text_that_is_not_toml() {
    let broken = "[general\n";
    match write_theme_to_config(Some(broken), THEME) {
        Err(ThemeConfigError::Parse(e)) => {
            assert_eq!(e, broken.parse::<DocumentMut>().unwrap_err());
        },
        other => panic!("unexpected outcome {:?}", other),
    }
}

#[test]
fn writing_refuses_a_general_that_is_no_table() {
    for old in ["general = 3\n", "general = \"x\"\n", "general = [1]\n", "[[general]]\na = 1\n"] {
        assert!(
            matches!(
                write_theme_to_config(Some(old), THEME),
                Err(ThemeConfigError::GeneralNotTable)
            ),
            "input {:?}",
            old
        );
    }
}

#[test]
fn select_theme_edits_the_document_in_place() {
    let mut d = doc("[general]\nimport = [\"~/old.toml\"]\n");
    assert!(select_theme(&mut d, THEME).is_ok());
    assert_eq!(selected_theme_in(&d), Some(THEME.to_string()));
    let mut fresh = DocumentMut::new();
    assert!(select_theme(&mut fresh, "x").is_ok());
    assert_eq!(selected_theme_in(&fresh), Some("x".to_string()));
    assert!(fresh["general"].is_table());
}

#[test]
fn a_refused_document_is_left_alone() {
    let mut d = doc("general = 3\nother = 1\n");
    assert!(matches!(select_theme(&mut d, THEME), Err(ThemeConfigError::GeneralNotTable)));
    assert_eq!(d.to_string(), "general = 3\nother = 1\n");
}

#[test]
fn writing_twice_keeps_one_import() {
    let first = write_theme_to_config(None, "~/a.toml").unwrap();
    let second = write_theme_to_config(Some(&first), "~/b.toml").unwrap();
    assert_eq!(second, "[general]\nimport = [\"~/b.toml\"]\n");
}

fn with_root(text: &str, root: Item) -> DocumentMut {
    let mut d = doc(text);
    *d.as_item_mut() = root;
    d
}

fn inline_root() -> Item {
    let holder = doc("t = { general = { import = [\"~/a.toml\"] } }\n");
    holder["t"].clone()
}

fn other_roots() -> Vec<Item> {
    let holder = doc("n = 3\ns = \"x\"\na = [1]\n[[tables]]\nk = 1\n");
    vec![
        Item::None,
        holder["n"].clone(),
        holder["s"].clone(),
        holder["a"].clone(),
        holder["tables"].clone(),
        inline_root(),
    ]
}

#[test]
fn a_document_whose_root_is_no_table_selects_nothing() {
    for root in other_roots() {
        let d = with_root("[general]\nimport = [\"~/a.toml\"]\n", root);
        assert_eq!(selected_theme_in(&d), None);
        assert_eq!(current_theme_in(&d, Some("/h")), None);
    }
}

fn kind(item: &Item) -> &'static str {
    if item.is_none() {
        "none"
    } else if item.is_table() {
        "table"
    } else if item.is_array_of_tables() {
        "array of tables"
    } else if item.is_inline_table() {
        "inline table"
    } else if item.is_array() {
        "array"
    } else if item.is_str() {
        "string"
    } else {
        "other value"
    }
}

#[test]
fn a_document_whose_root_is_no_table_is_refused_and_left_alone() {
    for root in other_roots() {
        let before = kind(&root);
        let had_general = root.get("general").is_some();
        let mut d = with_root("x = 1\n", root);
        assert!(
            matches!(select_theme(&mut d, THEME), Err(ThemeConfigError::RootNotTable)),
            "root {}",
            before
        );
        assert_eq!(kind(d.as_item()), before);
        assert_eq!(d.as_item().get("general").is_some(), had_general);
        assert!(d.as_item().get("x").is_none());
    }
}

#[test]
fn writing_keeps_the_values_under_other_keys() {
    let old = "n = 12\nf = 1.5\nb = true\nd = 1979-05-27T07:32:00Z\nlist = [1, \"two\"]\n\n[general]\nkeep = 7\n\n[font]\nsize = 12\n";
    let text = write_theme_to_config(Some(old), THEME).unwrap();
    let d = doc(&text);
    assert_eq!(d["n"].as_integer(), Some(12));
    assert_eq!(d["f"].as_float(), Some(1.5));
    assert_eq!(d["b"].as_bool(), Some(true));
    assert_eq!(d["d"].as_datetime().map(|v| v.to_string()), Some("1979-05-27T07:32:00Z".to_string()));
    assert_eq!(d["list"].as_array().unwrap().len(), 2);
    assert_eq!(d["general"]["keep"].as_integer(), Some(7));
    assert_eq!(d["font"]["size"].as_integer(), Some(12));
    assert_eq!(selected_theme_in(&d), Some(THEME.to_string()));
}

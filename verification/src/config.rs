//! The theme selection inside the configuration file.
//!
//! The configuration is a TOML document. The selected theme is the first
//! string under `import` in the table `general`. Parsing, editing and
//! printing the document is left to `toml_edit`; what this module decides is
//! where in the document to look and what to put there.

use crate::path_util::opt_view;
use crate::theme::{expand_tilde, expanded};
use vstd::prelude::*;

verus! {

/// Declares `toml_edit::DocumentMut`, an editable TOML document, as an
/// opaque type. What is inside is spoken of through [`document_node`] and
/// [`rendered`] only.
#[verifier::external_type_specification]
#[verifier::external_body]
pub struct ExDocumentMut(toml_edit::DocumentMut);

/// Declares `toml_edit::Item`, one item of a document, as an opaque type.
/// What is inside is spoken of through [`node_of`] only.
#[verifier::external_type_specification]
#[verifier::external_body]
pub struct ExItem(toml_edit::Item);

/// Declares `toml_edit::TomlError`, the parser's error, as an opaque type.
/// It is carried through to the caller and never looked into.
#[verifier::external_type_specification]
#[verifier::external_body]
pub struct ExTomlError(toml_edit::TomlError);

/// What an item of a document holds, as far as this module looks at it.
pub enum Node {
    /// Nothing: the placeholder that stands for a missing item.
    Absent,
    /// A string.
    Text(Seq<char>),
    /// An inline array, with what each element holds.
    Array(Seq<Node>),
    /// A table with a header of its own, by key.
    Table(Map<Seq<char>, Node>),
    /// An inline table, by key.
    InlineTable(Map<Seq<char>, Node>),
    /// Any other value, or an array of tables: the item itself, so that two
    /// of them are the same only where they hold the same item.
    Other(toml_edit::Item),
}

/// What `toml_edit` makes of a configuration text: a document, or the reason
/// why the text is not TOML.
pub uninterp spec fn parse_outcome(text: Seq<char>) -> Result<
    toml_edit::DocumentMut,
    toml_edit::TomlError,
>;

/// What the root of a document holds. A document that the parser made, and
/// a new one, have a table there; a caller can put any item in its place.
pub uninterp spec fn document_node(doc: toml_edit::DocumentMut) -> Node;

/// What an item holds. The keys of a table are those whose item is not the
/// placeholder.
pub uninterp spec fn node_of(item: toml_edit::Item) -> Node;

/// The text that `toml_edit` prints for a document.
pub uninterp spec fn rendered(doc: toml_edit::DocumentMut) -> Seq<char>;

/// The entries of a table or inline table; no entries for anything else.
pub open spec fn entries(node: Node) -> Map<Seq<char>, Node> {
    match node {
        Node::Table(m) => m,
        Node::InlineTable(m) => m,
        _ => Map::empty(),
    }
}

/// Trusted: `DocumentMut::from_str`. The outcome depends on the text alone
/// and is named [`parse_outcome`]. The parser builds the root of a document
/// as a table.
#[verifier::external_body]
fn parse_document(text: &str) -> (outcome: Result<toml_edit::DocumentMut, toml_edit::TomlError>)
    ensures
        outcome == parse_outcome(text@),
        outcome matches Ok(doc) ==> document_node(doc) is Table,
{
    text.parse::<toml_edit::DocumentMut>()
}

/// Trusted: `DocumentMut::new`. A new document has an empty root table.
#[verifier::external_body]
fn new_document() -> (doc: toml_edit::DocumentMut)
    ensures
        document_node(doc) == Node::Table(Map::empty()),
{
    toml_edit::DocumentMut::new()
}

/// Trusted: `DocumentMut::as_item`, the root of a document, whatever it is.
#[verifier::external_body]
fn root_item(doc: &toml_edit::DocumentMut) -> (root: &toml_edit::Item)
    ensures
        node_of(*root) == document_node(*doc),
{
    doc.as_item()
}

/// Trusted: `Item::get` with a string key. A table or inline table gives the
/// item under the key, unless there is none or it is the placeholder;
/// anything else gives nothing.
#[verifier::external_body]
fn item_get<'a>(item: &'a toml_edit::Item, key: &str) -> (found: Option<&'a toml_edit::Item>)
    ensures
        found is Some == entries(node_of(*item)).contains_key(key@),
        found matches Some(inner) ==> node_of(*inner) == entries(node_of(*item))[key@],
{
    item.get(key)
}

/// Trusted: `Item::get` with a position. An inline array gives its element
/// at the position, or nothing past its end. A position that holds an
/// element is below `usize::MAX`, as it indexes a `Vec`.
#[verifier::external_body]
fn item_at(item: &toml_edit::Item, index: usize) -> (found: Option<&toml_edit::Item>)
    ensures
        found is Some ==> index < usize::MAX,
        node_of(*item) matches Node::Array(elems) ==> (found is Some == (index < elems.len())),
        node_of(*item) matches Node::Array(elems) ==> (found matches Some(inner) ==> node_of(*inner)
            == elems[index as int]),
{
    item.get(index)
}

/// Trusted: `Item::is_table`, true for a table with a header of its own only.
#[verifier::external_body]
fn item_is_table(item: &toml_edit::Item) -> (yes: bool)
    ensures
        yes == (node_of(*item) is Table),
{
    item.is_table()
}

/// Trusted: `Item::is_inline_table`.
#[verifier::external_body]
fn item_is_inline_table(item: &toml_edit::Item) -> (yes: bool)
    ensures
        yes == (node_of(*item) is InlineTable),
{
    item.is_inline_table()
}

/// Trusted: `Item::is_array`, true for an inline array only.
#[verifier::external_body]
fn item_is_array(item: &toml_edit::Item) -> (yes: bool)
    ensures
        yes == (node_of(*item) is Array),
{
    item.is_array()
}

/// Trusted: `Item::as_str`, the string of a string value and nothing for
/// anything else.
#[verifier::external_body]
fn item_as_str(item: &toml_edit::Item) -> (text: Option<&str>)
    ensures
        text is Some == (node_of(*item) is Text),
        text matches Some(s) ==> node_of(*item) == Node::Text(s@),
{
    item.as_str()
}

/// Trusted: assigning a new empty `Table` through `IndexMut` on the
/// document. A root that is a table gets an empty table under the key,
/// replacing what was there; the other keys keep what they hold. With any
/// other root `IndexMut` panics or turns the root into an inline table.
#[verifier::external_body]
fn put_empty_table(doc: &mut toml_edit::DocumentMut, key: &str)
    requires
        document_node(*old(doc)) is Table,
    ensures
        document_node(*final(doc)) == Node::Table(
            entries(document_node(*old(doc))).insert(key@, Node::Table(Map::empty())),
        ),
{
    doc[key] = toml_edit::Item::Table(toml_edit::Table::default());
}

/// Trusted: assigning an array of one string, built with `Array::push`,
/// through `IndexMut` on a table of the document. The table under `table`
/// gets the array under `key`; everything else keeps what it holds.
/// `IndexMut` panics unless `table` names a table or an inline table. The
/// root has to be a table.
#[verifier::external_body]
fn put_string_list(doc: &mut toml_edit::DocumentMut, table: &str, key: &str, value: &str)
    requires
        document_node(*old(doc)) is Table,
        entries(document_node(*old(doc))).contains_key(table@),
        entries(document_node(*old(doc)))[table@] is Table || entries(document_node(*old(doc)))[table@]
            is InlineTable,
    ensures
        document_node(*final(doc)) == with_string_list(
            document_node(*old(doc)),
            table@,
            key@,
            value@,
        ),
{
    let mut list = toml_edit::Array::default();
    list.push(value);
    doc[table][key] = toml_edit::Item::Value(list.into());
}

/// Trusted: `DocumentMut::to_string`. The text depends on the document
/// alone and is named [`rendered`]. Printing panics unless the root is a
/// table.
#[verifier::external_body]
fn document_text(doc: &toml_edit::DocumentMut) -> (text: String)
    requires
        document_node(*doc) is Table,
    ensures
        text@ == rendered(*doc),
{
    doc.to_string()
}

/// `inner` with `value` put under `key`, keeping its kind.
pub open spec fn with_entry(inner: Node, key: Seq<char>, value: Node) -> Node {
    match inner {
        Node::InlineTable(m) => Node::InlineTable(m.insert(key, value)),
        _ => Node::Table(entries(inner).insert(key, value)),
    }
}

/// The root `root` after the table under `table` got the one-string array
/// `[value]` under `key`.
pub open spec fn with_string_list(root: Node, table: Seq<char>, key: Seq<char>, value: Seq<char>) -> Node {
    Node::Table(
        entries(root).insert(
            table,
            with_entry(entries(root)[table], key, Node::Array(seq![Node::Text(value)])),
        ),
    )
}

/// The first string among the elements of an array.
pub open spec fn first_text(elems: Seq<Node>) -> Option<Seq<char>>
    decreases elems.len(),
{
    if elems.len() == 0 {
        None
    } else {
        match elems[0] {
            Node::Text(s) => Some(s),
            _ => first_text(elems.drop_first()),
        }
    }
}

/// The theme that a document selects: under `import` in the table `general`,
/// the first string of an array, or the string itself. A `general` that is
/// no table with a header of its own selects nothing, and neither does a
/// document whose root is not a table.
pub open spec fn selected_theme(root: Node) -> Option<Seq<char>> {
    if root is Table && entries(root).contains_key("general"@) {
        match entries(root)["general"@] {
            Node::Table(general) => if general.contains_key("import"@) {
                match general["import"@] {
                    Node::Array(elems) => first_text(elems),
                    Node::Text(s) => Some(s),
                    _ => None,
                }
            } else {
                None
            },
            _ => None,
        }
    } else {
        None
    }
}

/// Whether `general` leaves room for a theme: it is missing, or it is a
/// table of either kind.
pub open spec fn general_fits(root: Node) -> bool {
    entries(root).contains_key("general"@) ==> entries(root)["general"@] is Table || entries(
        root,
    )["general"@] is InlineTable
}

/// Whether a theme can be recorded in a document with this root: the root is
/// a table, and `general` is missing or a table of either kind.
pub open spec fn accepts_theme(root: Node) -> bool {
    root is Table && general_fits(root)
}

/// The root after `theme` has been recorded: `general` is created as an
/// empty table if it was missing, and its `import` becomes `[theme]`.
pub open spec fn with_theme(root: Node, theme: Seq<char>) -> Node {
    let prepared = if entries(root).contains_key("general"@) {
        root
    } else {
        Node::Table(entries(root).insert("general"@, Node::Table(Map::empty())))
    };
    with_string_list(prepared, "general"@, "import"@, theme)
}

/// Why a theme could not be recorded.
#[derive(Debug)]
pub enum ThemeConfigError {
    /// The configuration text is not TOML; the parser's error is inside.
    Parse(toml_edit::TomlError),
    /// `general` exists and is not a table.
    GeneralNotTable,
    /// The root of the document is not a table; the parser never makes such
    /// a document.
    RootNotTable,
}

/// The view of an optional owned string.
pub open spec fn opt_string_view(s: Option<String>) -> Option<Seq<char>> {
    match s {
        Some(t) => Some(t@),
        None => None,
    }
}

/// `p` expanded, if there is one.
pub open spec fn opt_expanded(p: Option<Seq<char>>, home: Option<Seq<char>>) -> Option<Seq<char>> {
    match p {
        Some(s) => Some(expanded(s, home)),
        None => None,
    }
}

/// The first string among the elements of the array `import`, from `from` on.
fn first_string_from(import: &toml_edit::Item, from: usize) -> (text: Option<String>)
    requires
        node_of(*import) is Array,
        from <= node_of(*import)->Array_0.len(),
    ensures
        opt_string_view(text) == first_text(node_of(*import)->Array_0.skip(from as int)),
{
    let ghost elems = node_of(*import)->Array_0;
    let mut i: usize = from;
    loop
        invariant
            node_of(*import) == Node::Array(elems),
            from <= i <= elems.len(),
            first_text(elems.skip(i as int)) == first_text(elems.skip(from as int)),
        decreases elems.len() - i,
    {
        match item_at(import, i) {
            Some(element) => {
                proof {
                    assert(elems.skip(i as int)[0] == elems[i as int]);
                    assert(elems.skip(i as int).drop_first() =~= elems.skip(i + 1));
                }
                match item_as_str(element) {
                    Some(s) => {
                        return Some(s.to_owned());
                    },
                    None => {
                        i += 1;
                    },
                }
            },
            None => {
                proof {
                    assert(elems.skip(i as int).len() == 0);
                }
                return None;
            },
        }
    }
}

/// The theme that a parsed document selects, as written in the document.
pub fn selected_theme_in(doc: &toml_edit::DocumentMut) -> (theme: Option<String>)
    ensures
        opt_string_view(theme) == selected_theme(document_node(*doc)),
{
    let root = root_item(doc);
    if !item_is_table(root) {
        return None;
    }
    let general = match item_get(root, "general") {
        Some(item) => item,
        None => {
            return None;
        },
    };
    if !item_is_table(general) {
        return None;
    }
    let import = match item_get(general, "import") {
        Some(item) => item,
        None => {
            return None;
        },
    };
    if item_is_array(import) {
        proof {
            assert(node_of(*import)->Array_0.skip(0) =~= node_of(*import)->Array_0);
        }
        first_string_from(import, 0)
    } else {
        match item_as_str(import) {
            Some(s) => Some(s.to_owned()),
            None => None,
        }
    }
}

/// The theme that a parsed document selects, with a leading `~` replaced by
/// the home directory.
pub fn current_theme_in(doc: &toml_edit::DocumentMut, home: Option<&str>) -> (theme: Option<String>)
    ensures
        opt_string_view(theme) == opt_expanded(
            selected_theme(document_node(*doc)),
            opt_view(home),
        ),
{
    match selected_theme_in(doc) {
        Some(written) => Some(expand_tilde(written.as_str(), home)),
        None => None,
    }
}

/// The theme that a configuration text selects, with a leading `~` replaced
/// by the home directory. Text that is not TOML selects nothing.
pub fn read_current_theme_expanded(config_text: &str, home: Option<&str>) -> (theme: Option<String>)
    ensures
        opt_string_view(theme) == match parse_outcome(config_text@) {
            Ok(doc) => opt_expanded(selected_theme(document_node(doc)), opt_view(home)),
            Err(_) => None,
        },
{
    match parse_document(config_text) {
        Ok(doc) => current_theme_in(&doc, home),
        Err(_) => None,
    }
}

/// Records `theme` in a document: creates the table `general` if it is
/// missing and sets its `import` to `[theme]`. A root that is not a table,
/// and a `general` that is not a table, are refused, and the document stays
/// as it is. Every other key keeps what it holds.
pub fn select_theme(doc: &mut toml_edit::DocumentMut, theme: &str) -> (done: Result<
    (),
    ThemeConfigError,
>)
    ensures
        done is Ok == accepts_theme(document_node(*old(doc))),
        done is Ok ==> document_node(*final(doc)) == with_theme(document_node(*old(doc)), theme@),
        done is Err ==> *final(doc) == *old(doc),
        !(document_node(*old(doc)) is Table) ==> done matches Err(ThemeConfigError::RootNotTable),
        document_node(*old(doc)) is Table && !general_fits(document_node(*old(doc)))
            ==> done matches Err(ThemeConfigError::GeneralNotTable),
        done is Ok && entries(document_node(*old(doc))).contains_key("general"@) ==> (entries(
            document_node(*old(doc)),
        )["general"@] is Table ==> selected_theme(document_node(*final(doc))) == Some(theme@)),
        done is Ok && !entries(document_node(*old(doc))).contains_key("general"@)
            ==> selected_theme(document_node(*final(doc))) == Some(theme@),
{
    let present: bool = {
        let root = root_item(doc);
        if !item_is_table(root) {
            return Err(ThemeConfigError::RootNotTable);
        }
        match item_get(root, "general") {
            Some(general) => {
                if !item_is_table(general) && !item_is_inline_table(general) {
                    return Err(ThemeConfigError::GeneralNotTable);
                }
                true
            },
            None => false,
        }
    };
    if !present {
        put_empty_table(doc, "general");
    }
    put_string_list(doc, "general", "import", theme);
    proof {
        let elems = seq![Node::Text(theme@)];
        assert(elems.drop_first() =~= Seq::<Node>::empty());
        assert(first_text(elems) == Some(theme@));
    }
    Ok(())
}

/// The configuration text with `theme` recorded in it.
///
/// `existing` is the present content of the configuration file, or nothing
/// when the file cannot be read; the result then starts from an empty
/// document. Text that is not TOML, and a `general` that is not a table, are
/// refused.
pub fn write_theme_to_config(existing: Option<&str>, theme: &str) -> (text: Result<
    String,
    ThemeConfigError,
>)
    ensures
        match existing {
            Some(old_text) => match parse_outcome(old_text@) {
                Ok(doc) => if general_fits(document_node(doc)) {
                    text matches Ok(t) && exists|after: toml_edit::DocumentMut|
                        t@ == rendered(after) && document_node(after) == with_theme(
                            document_node(doc),
                            theme@,
                        ) && (entries(document_node(doc)).contains_key("general"@) && entries(
                            document_node(doc),
                        )["general"@] is InlineTable || selected_theme(document_node(after))
                            == Some(theme@))
                } else {
                    text matches Err(ThemeConfigError::GeneralNotTable)
                },
                Err(e) => text matches Err(ThemeConfigError::Parse(err)) && err == e,
            },
            None => text matches Ok(t) && exists|after: toml_edit::DocumentMut|
                t@ == rendered(after) && document_node(after) == with_theme(
                    Node::Table(Map::empty()),
                    theme@,
                ) && selected_theme(document_node(after)) == Some(theme@),
        },
{
    let mut doc = match existing {
        Some(old_text) => match parse_document(old_text) {
            Ok(doc) => doc,
            Err(e) => {
                return Err(ThemeConfigError::Parse(e));
            },
        },
        None => new_document(),
    };
    match select_theme(&mut doc, theme) {
        Ok(()) => Ok(document_text(&doc)),
        Err(e) => Err(e),
    }
}

} // verus!

//! The document tree and the flattener that lays it out as rows.

use crate::breadcrumbs::{child_breadcrumbs, make_breadcrumbs};
use crate::json_item::{fresh_row, name_view, rows_view, ItemView, JsonItem, JsonValueType, ValueView};
use crate::nesting::{lemma_document_rows_well_nested, well_nested};
use crate::text::{decimal, decimal_string};
use vstd::prelude::*;
use vstd::string::*;

verus! {

/// A parsed document. An object holds its members, each a key and the value
/// under it, in the order in which the text gave them; a number is kept as
/// text.
#[derive(Debug)]
pub enum JsonTree {
    Null,
    Bool(bool),
    Number(String),
    String(String),
    Array(Vec<JsonTree>),
    Object(Vec<(String, JsonTree)>),
}

/// The mathematical value of a `JsonTree`.
pub enum TreeView {
    Null,
    Bool(bool),
    Number(Seq<char>),
    String(Seq<char>),
    Array(Seq<TreeView>),
    Object(Seq<MemberView>),
}

/// The mathematical value of an object's member.
pub struct MemberView {
    pub key: Seq<char>,
    pub value: TreeView,
}

impl View for JsonTree {
    type V = TreeView;

    open spec fn view(&self) -> TreeView
        decreases self,
    {
        match self {
            JsonTree::Null => TreeView::Null,
            JsonTree::Bool(b) => TreeView::Bool(*b),
            JsonTree::Number(n) => TreeView::Number(n@),
            JsonTree::String(s) => TreeView::String(s@),
            JsonTree::Array(elements) => TreeView::Array(
                Seq::new(
                    elements.len() as nat,
                    |i: int|
                        if 0 <= i < elements.len() {
                            elements[i]@
                        } else {
                            TreeView::Null
                        },
                ),
            ),
            JsonTree::Object(members) => TreeView::Object(
                Seq::new(
                    members.len() as nat,
                    |i: int|
                        if 0 <= i < members.len() {
                            MemberView { key: members[i].0@, value: members[i].1@ }
                        } else {
                            MemberView { key: Seq::empty(), value: TreeView::Null }
                        },
                ),
            ),
        }
    }
}

/// The rows of a value with the given name, depth and breadcrumbs: one row
/// for a scalar; for a container its opening row, the rows of its children
/// one level deeper, and its closing row. Each row is as `JsonItem::new`
/// makes it.
pub open spec fn tree_rows(
    tree: TreeView,
    name: Option<Seq<char>>,
    indent: nat,
    crumbs: Seq<char>,
) -> Seq<ItemView>
    decreases tree, 0nat,
{
    match tree {
        TreeView::Object(members) => seq![
            fresh_row(name, indent, ValueView::Object, crumbs, members.len()),
        ] + member_rows(members, members.len(), indent + 1, crumbs) + seq![
            fresh_row(None, indent, ValueView::ObjectEnd, crumbs, 0),
        ],
        TreeView::Array(elements) => seq![
            fresh_row(name, indent, ValueView::Array, crumbs, elements.len()),
        ] + element_rows(elements, elements.len(), indent + 1, crumbs) + seq![
            fresh_row(None, indent, ValueView::ArrayEnd, crumbs, 0),
        ],
        TreeView::Number(n) => seq![fresh_row(name, indent, ValueView::Number(n), crumbs, 0)],
        TreeView::String(s) => seq![fresh_row(name, indent, ValueView::String(s), crumbs, 0)],
        TreeView::Bool(b) => seq![fresh_row(name, indent, ValueView::Bool(b), crumbs, 0)],
        TreeView::Null => seq![fresh_row(name, indent, ValueView::Null, crumbs, 0)],
    }
}

/// The rows of the first `count` members of an object whose breadcrumbs are
/// `crumbs`, each member named by its key.
pub open spec fn member_rows(
    members: Seq<MemberView>,
    count: nat,
    indent: nat,
    crumbs: Seq<char>,
) -> Seq<ItemView>
    decreases members, count,
{
    if count == 0 || count > members.len() {
        Seq::empty()
    } else {
        member_rows(members, (count - 1) as nat, indent, crumbs) + tree_rows(
            members[count - 1].value,
            Some(members[count - 1].key),
            indent,
            child_breadcrumbs(crumbs, members[count - 1].key, ValueView::Object),
        )
    }
}

/// The rows of the first `count` elements of an array whose breadcrumbs are
/// `crumbs`; an element has no name, and its breadcrumb segment is its index.
pub open spec fn element_rows(
    elements: Seq<TreeView>,
    count: nat,
    indent: nat,
    crumbs: Seq<char>,
) -> Seq<ItemView>
    decreases elements, count,
{
    if count == 0 || count > elements.len() {
        Seq::empty()
    } else {
        element_rows(elements, (count - 1) as nat, indent, crumbs) + tree_rows(
            elements[count - 1],
            None,
            indent,
            child_breadcrumbs(crumbs, decimal((count - 1) as nat), ValueView::Array),
        )
    }
}

/// The same rows, each numbered by its position.
pub open spec fn numbered(rows: Seq<ItemView>) -> Seq<ItemView> {
    Seq::new(rows.len(), |i: int| ItemView { line_number: i as nat, ..rows[i] })
}

/// The rows of a document: those of its root, unnamed, at depth zero, with
/// empty breadcrumbs, numbered from zero.
pub open spec fn document_rows(tree: TreeView) -> Seq<ItemView> {
    numbered(tree_rows(tree, None, 0, Seq::empty()))
}

proof fn lemma_rows_view_push(rows: Seq<JsonItem>, row: JsonItem)
    ensures
        rows_view(rows.push(row)) == rows_view(rows).push(row@),
{
}

/// Appends the rows of `root_value` to `output`.
fn parse_json(
    root_value: &JsonTree,
    output: &mut Vec<JsonItem>,
    title: Option<String>,
    indent: usize,
    breadcrumbs: String,
)
    requires
        indent <= old(output).len(),
    ensures
        rows_view(final(output)@) == rows_view(old(output)@) + tree_rows(
            root_value@,
            name_view(title),
            indent as nat,
            breadcrumbs@,
        ),
        old(output).len() <= final(output).len(),
    decreases root_value,
{
    let ghost before = rows_view(output@);
    let ghost name = name_view(title);
    match root_value {
        JsonTree::Object(members) => {
            let ghost members_view = root_value@->Object_0;
            let open = JsonItem::new(
                title,
                indent,
                JsonValueType::Object,
                breadcrumbs.clone(),
                members.len(),
            );
            proof {
                lemma_rows_view_push(output@, open);
            }
            output.push(open);
            let mut i: usize = 0;
            while i < members.len()
                invariant
                    i <= members.len(),
                    indent < output.len(),
                    root_value == JsonTree::Object(*members),
                    members_view.len() == members.len(),
                    forall|k: int|
                        0 <= k < members.len() ==> #[trigger] members_view[k] == (MemberView {
                            key: members[k].0@,
                            value: members[k].1@,
                        }),
                    rows_view(output@) == before + seq![
                        fresh_row(
                            name,
                            indent as nat,
                            ValueView::Object,
                            breadcrumbs@,
                            members.len() as nat,
                        ),
                    ] + member_rows(members_view, i as nat, (indent + 1) as nat, breadcrumbs@),
                decreases members.len() - i,
            {
                let member = &members[i];
                let crumbs = make_breadcrumbs(
                    breadcrumbs.as_str(),
                    member.0.as_str(),
                    JsonValueType::Object,
                );
                assert(root_value->Object_0 == *members);
                parse_json(&member.1, output, Some(member.0.clone()), indent + 1, crumbs);
                i += 1;
            }
            let end = JsonItem::new(
                None,
                indent,
                JsonValueType::ObjectEnd,
                breadcrumbs.clone(),
                0,
            );
            proof {
                lemma_rows_view_push(output@, end);
            }
            output.push(end);
        },
        JsonTree::Array(elements) => {
            let ghost elements_view = root_value@->Array_0;
            let open = JsonItem::new(
                title,
                indent,
                JsonValueType::Array,
                breadcrumbs.clone(),
                elements.len(),
            );
            proof {
                lemma_rows_view_push(output@, open);
            }
            output.push(open);
            let mut i: usize = 0;
            while i < elements.len()
                invariant
                    i <= elements.len(),
                    indent < output.len(),
                    root_value == JsonTree::Array(*elements),
                    elements_view == root_value@->Array_0,
                    rows_view(output@) == before + seq![
                        fresh_row(
                            name,
                            indent as nat,
                            ValueView::Array,
                            breadcrumbs@,
                            elements.len() as nat,
                        ),
                    ] + element_rows(elements_view, i as nat, (indent + 1) as nat, breadcrumbs@),
                decreases elements.len() - i,
            {
                let index = decimal_string(i);
                let crumbs = make_breadcrumbs(
                    breadcrumbs.as_str(),
                    index.as_str(),
                    JsonValueType::Array,
                );
                parse_json(&elements[i], output, None, indent + 1, crumbs);
                i += 1;
            }
            let end = JsonItem::new(None, indent, JsonValueType::ArrayEnd, breadcrumbs.clone(), 0);
            proof {
                lemma_rows_view_push(output@, end);
            }
            output.push(end);
        },
        JsonTree::Number(n) => {
            let row = JsonItem::new(title, indent, JsonValueType::Number(n.clone()), breadcrumbs, 0);
            proof {
                lemma_rows_view_push(output@, row);
            }
            output.push(row);
        },
        JsonTree::Bool(b) => {
            let row = JsonItem::new(title, indent, JsonValueType::Bool(*b), breadcrumbs, 0);
            proof {
                lemma_rows_view_push(output@, row);
            }
            output.push(row);
        },
        JsonTree::String(s) => {
            let row = JsonItem::new(title, indent, JsonValueType::String(s.clone()), breadcrumbs, 0);
            proof {
                lemma_rows_view_push(output@, row);
            }
            output.push(row);
        },
        JsonTree::Null => {
            let row = JsonItem::new(title, indent, JsonValueType::Null, breadcrumbs, 0);
            proof {
                lemma_rows_view_push(output@, row);
            }
            output.push(row);
        },
    }
}

/// Numbers each row by its position.
pub(crate) fn number_rows(rows: &mut Vec<JsonItem>)
    ensures
        rows_view(final(rows)@) == numbered(rows_view(old(rows)@)),
{
    let ghost before = rows_view(rows@);
    let mut i: usize = 0;
    while i < rows.len()
        invariant
            i <= rows.len(),
            rows.len() == before.len(),
            forall|k: int|
                0 <= k < i ==> #[trigger] rows@[k]@ == (ItemView {
                    line_number: k as nat,
                    ..before[k]
                }),
            forall|k: int| i <= k < rows.len() ==> #[trigger] rows@[k]@ == before[k],
        decreases rows.len() - i,
    {
        let ghost prev = rows@;
        rows[i].line_number = i;
        assert(prev[i as int]@ == before[i as int]);
        i += 1;
    }
}

/// Lays a document out as rows. The rows are well nested: every opening row
/// has its closing row.
pub fn flatten(tree: &JsonTree) -> (rows: Vec<JsonItem>)
    ensures
        rows_view(rows@) == document_rows(tree@),
        well_nested(rows_view(rows@)),
        rows.len() > 0,
{
    proof {
        lemma_document_rows_well_nested(tree@);
    }
    let mut rows: Vec<JsonItem> = Vec::new();
    parse_json(tree, &mut rows, None, 0, String::new());
    number_rows(&mut rows);
    rows
}

/// `serde_json::Value`, a parsed document as the parser hands it out.
#[verifier::external_type_specification]
#[verifier::external_body]
pub struct ExValue(serde_json::Value);

/// `serde_json::Error`, the parser's account of a rejected text.
#[verifier::external_type_specification]
#[verifier::external_body]
pub struct ExError(serde_json::Error);

/// The tree that a `serde_json::Value` holds: its variant, its scalar or its
/// children in order; an object's members in the order of
/// `serde_json::Map::iter`, a number as `Display` writes it.
pub uninterp spec fn value_tree(value: serde_json::Value) -> TreeView;

/// The document that `serde_json::from_str` reads from a text, or `None`
/// where it rejects the text.
pub uninterp spec fn parsed_document(text: Seq<char>) -> Option<TreeView>;

/// Calls `serde_json::from_str` for a `serde_json::Value`. The result is a
/// function of the text alone; the contract names it and claims nothing else.
#[verifier::external_body]
fn parse_value(text: &str) -> (r: Result<serde_json::Value, serde_json::Error>)
    ensures
        match r {
            Ok(value) => parsed_document(text@) == Some(value_tree(value)),
            Err(_) => parsed_document(text@) is None,
        },
{
    serde_json::from_str(text)
}

/// Copies a `serde_json::Value` into a `JsonTree`, variant by variant, with
/// `serde_json::Map::iter` for the members of an object and `to_string` for a
/// number. The contract says that the copy holds what the value holds.
#[verifier::external_body]
fn tree_of_value(value: &serde_json::Value) -> (tree: JsonTree)
    ensures
        tree@ == value_tree(*value),
{
    match value {
        serde_json::Value::Null => JsonTree::Null,
        serde_json::Value::Bool(b) => JsonTree::Bool(*b),
        serde_json::Value::Number(n) => JsonTree::Number(n.to_string()),
        serde_json::Value::String(s) => JsonTree::String(s.clone()),
        serde_json::Value::Array(a) => JsonTree::Array(a.iter().map(tree_of_value).collect()),
        serde_json::Value::Object(m) => JsonTree::Object(
            m.iter().map(|(k, v)| (k.clone(), tree_of_value(v))).collect(),
        ),
    }
}

/// Calls `to_string` on a `serde_json::Error`: the parser's message with the
/// line and column. Nothing is claimed of the text.
#[verifier::external_body]
fn error_message(error: &serde_json::Error) -> String {
    error.to_string()
}

/// Why a text could not be read as a document.
#[derive(Debug)]
pub struct ParseError {
    pub message: String,
}

/// Reads a JSON text and lays the document out as rows. The text is rejected
/// exactly where the parser rejects it.
pub fn parse_json_string(json_string: &str) -> (r: Result<Vec<JsonItem>, ParseError>)
    ensures
        match parsed_document(json_string@) {
            Some(tree) => r matches Ok(rows) && rows_view(rows@) == document_rows(tree),
            None => r is Err,
        },
        r matches Ok(rows) ==> well_nested(rows_view(rows@)) && rows.len() > 0,
{
    match parse_value(json_string) {
        Ok(value) => {
            let tree = tree_of_value(&value);
            Ok(flatten(&tree))
        },
        Err(error) => Err(ParseError { message: error_message(&error) }),
    }
}

} // verus!

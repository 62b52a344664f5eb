//! The row model: one row per scalar value, and an opening and a closing row
//! per array or object.


use crate::text::{decimal, decimal_string, padded_decimal_string, right_aligned};
use vstd::prelude::*;
use vstd::string::*;

verus! {

/// What a row stands for. A number is kept as the text it was written with.
#[derive(Debug)]
pub enum JsonValueType {
    Number(String),
    String(String),
    Bool(bool),
    Array,
    ArrayEnd,
    Object,
    ObjectEnd,
    Null,
}

/// The mathematical value of a `JsonValueType`.
pub enum ValueView {
    Number(Seq<char>),
    String(Seq<char>),
    Bool(bool),
    Array,
    ArrayEnd,
    Object,
    ObjectEnd,
    Null,
}

impl ValueView {
    /// The row opens an array or an object.
    pub open spec fn is_open(self) -> bool {
        self is Array || self is Object
    }

    /// The row closes an array or an object.
    pub open spec fn is_end(self) -> bool {
        self is ArrayEnd || self is ObjectEnd
    }

    /// The row is a number, a string, a boolean or null.
    pub open spec fn is_scalar(self) -> bool {
        !self.is_open() && !self.is_end()
    }

    /// The closing kind that belongs to an opening kind.
    pub open spec fn closes(self, open: ValueView) -> bool {
        (open is Array && self is ArrayEnd) || (open is Object && self is ObjectEnd)
    }

    /// The text a row shows for its value: the number as written, the
    /// string's content, `true` or `false`; empty for null and containers.
    pub open spec fn text(self) -> Seq<char> {
        match self {
            ValueView::Number(n) => n,
            ValueView::String(s) => s,
            ValueView::Bool(b) => if b {
                "true"@
            } else {
                "false"@
            },
            _ => Seq::empty(),
        }
    }
}

impl View for JsonValueType {
    type V = ValueView;

    open spec fn view(&self) -> ValueView {
        match self {
            JsonValueType::Number(n) => ValueView::Number(n@),
            JsonValueType::String(s) => ValueView::String(s@),
            JsonValueType::Bool(b) => ValueView::Bool(*b),
            JsonValueType::Array => ValueView::Array,
            JsonValueType::ArrayEnd => ValueView::ArrayEnd,
            JsonValueType::Object => ValueView::Object,
            JsonValueType::ObjectEnd => ValueView::ObjectEnd,
            JsonValueType::Null => ValueView::Null,
        }
    }
}

impl Clone for JsonValueType {
    fn clone(&self) -> (r: Self)
        ensures
            r@ == self@,
    {
        match self {
            JsonValueType::Number(n) => JsonValueType::Number(n.clone()),
            JsonValueType::String(s) => JsonValueType::String(s.clone()),
            JsonValueType::Bool(b) => JsonValueType::Bool(*b),
            JsonValueType::Array => JsonValueType::Array,
            JsonValueType::ArrayEnd => JsonValueType::ArrayEnd,
            JsonValueType::Object => JsonValueType::Object,
            JsonValueType::ObjectEnd => JsonValueType::ObjectEnd,
            JsonValueType::Null => JsonValueType::Null,
        }
    }
}

impl PartialEq for JsonValueType {
    fn eq(&self, other: &Self) -> (r: bool) {
        match self {
            JsonValueType::Number(a) => match other {
                JsonValueType::Number(b) => *a == *b,
                _ => false,
            },
            JsonValueType::String(a) => match other {
                JsonValueType::String(b) => *a == *b,
                _ => false,
            },
            JsonValueType::Bool(a) => match other {
                JsonValueType::Bool(b) => *a == *b,
                _ => false,
            },
            JsonValueType::Array => other.is_array(),
            JsonValueType::ArrayEnd => other.is_array_end(),
            JsonValueType::Object => other.is_object(),
            JsonValueType::ObjectEnd => other.is_object_end(),
            JsonValueType::Null => other.is_null(),
        }
    }
}

impl vstd::std_specs::cmp::PartialEqSpecImpl for JsonValueType {
    open spec fn obeys_eq_spec() -> bool {
        true
    }

    open spec fn eq_spec(&self, other: &Self) -> bool {
        self@ == other@
    }
}

impl JsonValueType {
    /// Whether the row opens an array.
    pub fn is_array(&self) -> (b: bool)
        ensures
            b == (self@ is Array),
    {
        match self {
            JsonValueType::Array => true,
            _ => false,
        }
    }

    /// Whether the row closes an array.
    pub fn is_array_end(&self) -> (b: bool)
        ensures
            b == (self@ is ArrayEnd),
    {
        match self {
            JsonValueType::ArrayEnd => true,
            _ => false,
        }
    }

    /// Whether the row opens an object.
    pub fn is_object(&self) -> (b: bool)
        ensures
            b == (self@ is Object),
    {
        match self {
            JsonValueType::Object => true,
            _ => false,
        }
    }

    /// Whether the row closes an object.
    pub fn is_object_end(&self) -> (b: bool)
        ensures
            b == (self@ is ObjectEnd),
    {
        match self {
            JsonValueType::ObjectEnd => true,
            _ => false,
        }
    }

    /// Whether the row is a null.
    pub fn is_null(&self) -> (b: bool)
        ensures
            b == (self@ is Null),
    {
        match self {
            JsonValueType::Null => true,
            _ => false,
        }
    }

    /// Whether the row opens an array or an object.
    pub fn is_open(&self) -> (b: bool)
        ensures
            b == self@.is_open(),
    {
        match self {
            JsonValueType::Array | JsonValueType::Object => true,
            _ => false,
        }
    }

    /// Whether the row closes an array or an object.
    pub fn is_end(&self) -> (b: bool)
        ensures
            b == self@.is_end(),
    {
        match self {
            JsonValueType::ArrayEnd | JsonValueType::ObjectEnd => true,
            _ => false,
        }
    }

    /// Whether the row is a number, a string, a boolean or null.
    pub fn is_scalar(&self) -> (b: bool)
        ensures
            b == self@.is_scalar(),
    {
        match self {
            JsonValueType::Number(_)
            | JsonValueType::String(_)
            | JsonValueType::Bool(_)
            | JsonValueType::Null => true,
            _ => false,
        }
    }
}

/// One display row.
#[derive(Debug)]
pub struct JsonItem {
    pub name: Option<String>,
    pub indent: usize,
    pub value: JsonValueType,
    pub value_str: String,
    pub line_number: usize,
    pub collapsed: bool,
    pub visible: bool,
    pub breadcrumbs: String,
    pub selection_level: Option<usize>,
    pub name_is_search_result: bool,
    pub value_is_search_result: bool,
    pub len: usize,
}

/// The mathematical value of a `JsonItem`.
pub struct ItemView {
    pub name: Option<Seq<char>>,
    pub indent: nat,
    pub value: ValueView,
    pub value_str: Seq<char>,
    pub line_number: nat,
    pub collapsed: bool,
    pub visible: bool,
    pub breadcrumbs: Seq<char>,
    pub selection_level: Option<nat>,
    pub name_is_search_result: bool,
    pub value_is_search_result: bool,
    pub len: nat,
}

/// The view of an optional string.
pub open spec fn name_view(name: Option<String>) -> Option<Seq<char>> {
    match name {
        Some(n) => Some(n@),
        None => None,
    }
}

/// The view of an optional index.
pub open spec fn level_view(level: Option<usize>) -> Option<nat> {
    match level {
        Some(n) => Some(n as nat),
        None => None,
    }
}

impl View for JsonItem {
    type V = ItemView;

    open spec fn view(&self) -> ItemView {
        ItemView {
            name: name_view(self.name),
            indent: self.indent as nat,
            value: self.value@,
            value_str: self.value_str@,
            line_number: self.line_number as nat,
            collapsed: self.collapsed,
            visible: self.visible,
            breadcrumbs: self.breadcrumbs@,
            selection_level: level_view(self.selection_level),
            name_is_search_result: self.name_is_search_result,
            value_is_search_result: self.value_is_search_result,
            len: self.len as nat,
        }
    }
}

/// The views of a sequence of rows.
pub open spec fn rows_view(rows: Seq<JsonItem>) -> Seq<ItemView> {
    Seq::new(rows.len(), |i: int| rows[i]@)
}

/// The row that `JsonItem::new` makes: expanded, visible, not a search
/// result, numbered zero, with the value's text precomputed.
pub open spec fn fresh_row(
    name: Option<Seq<char>>,
    indent: nat,
    value: ValueView,
    breadcrumbs: Seq<char>,
    len: nat,
) -> ItemView {
    ItemView {
        name,
        indent,
        value,
        value_str: value.text(),
        line_number: 0,
        collapsed: false,
        visible: true,
        breadcrumbs,
        selection_level: None,
        name_is_search_result: false,
        value_is_search_result: false,
        len,
    }
}

/// A copy of an optional string.
pub fn clone_name(name: &Option<String>) -> (r: Option<String>)
    ensures
        name_view(r) == name_view(*name),
{
    match name {
        Some(n) => Some(n.clone()),
        None => None,
    }
}

impl Clone for JsonItem {
    fn clone(&self) -> (r: Self)
        ensures
            r@ == self@,
    {
        JsonItem {
            name: clone_name(&self.name),
            indent: self.indent,
            value: self.value.clone(),
            value_str: self.value_str.clone(),
            line_number: self.line_number,
            collapsed: self.collapsed,
            visible: self.visible,
            breadcrumbs: self.breadcrumbs.clone(),
            selection_level: self.selection_level,
            name_is_search_result: self.name_is_search_result,
            value_is_search_result: self.value_is_search_result,
            len: self.len,
        }
    }
}

impl JsonItem {
    /// A fresh row for a value of the document.
    pub fn new(
        name: Option<String>,
        indent: usize,
        value: JsonValueType,
        breadcrumbs: String,
        len: usize,
    ) -> (item: JsonItem)
        ensures
            item@ == fresh_row(name_view(name), indent as nat, value@, breadcrumbs@, len as nat),
    {
        let value_str = match &value {
            JsonValueType::Number(n) => n.clone(),
            JsonValueType::String(s) => s.clone(),
            JsonValueType::Bool(b) => if *b {
                String::from_str("true")
            } else {
                String::from_str("false")
            },
            _ => String::new(),
        };
        JsonItem {
            name,
            indent,
            value,
            value_str,
            line_number: 0,
            collapsed: false,
            visible: true,
            breadcrumbs,
            selection_level: None,
            name_is_search_result: false,
            value_is_search_result: false,
            len,
        }
    }
}

/// What a piece of a displayed row is, so that a renderer can style it.
#[derive(Clone, Copy, Debug, PartialEq, Eq, Structural)]
pub enum SpanRole {
    /// The row's number.
    LineNumber,
    /// One level of indentation.
    Indent,
    /// The level of indentation that leads to the selection.
    SelectionLevel,
    /// The marker of the selected row.
    Selection,
    /// Text without a role of its own: brackets, and the blank in place of
    /// the selection marker.
    Plain,
    /// The row's name and the colon behind it.
    Name,
    /// A number.
    Number,
    /// A string, in quotes.
    String,
    /// `true` or `false`.
    Bool,
    /// `null`.
    Null,
    /// The number of children of a collapsed container.
    ItemCount,
}

/// A piece of a displayed row.
#[derive(Debug)]
pub struct DisplaySpan {
    pub text: String,
    pub role: SpanRole,
    /// The piece is marked as a search result.
    pub highlighted: bool,
}

/// The mathematical value of a `DisplaySpan`.
pub struct SpanView {
    pub text: Seq<char>,
    pub role: SpanRole,
    pub highlighted: bool,
}

impl View for DisplaySpan {
    type V = SpanView;

    open spec fn view(&self) -> SpanView {
        SpanView { text: self.text@, role: self.role, highlighted: self.highlighted }
    }
}

/// The views of a sequence of spans.
pub open spec fn spans_view(spans: Seq<DisplaySpan>) -> Seq<SpanView> {
    Seq::new(spans.len(), |i: int| spans[i]@)
}

/// A span that is not marked as a search result.
pub open spec fn plain_span(text: Seq<char>, role: SpanRole) -> SpanView {
    SpanView { text, role, highlighted: false }
}

/// The text of one level of indentation.
pub open spec fn indent_text() -> Seq<char> {
    seq![' ', ' ', '\u{2502}', ' ']
}

/// The text of the selection marker.
pub open spec fn marker_text() -> Seq<char> {
    seq!['\u{25b6}', ' ']
}

/// The row's number, right-aligned in eight characters, and a blank.
pub open spec fn line_number_span(row: ItemView) -> SpanView {
    plain_span(right_aligned(decimal(row.line_number), 8) + seq![' '], SpanRole::LineNumber)
}

/// One span for each level of the row's depth; the level that the row's
/// selection level names has the role `SelectionLevel`.
pub open spec fn indent_spans(row: ItemView) -> Seq<SpanView> {
    Seq::new(
        row.indent,
        |i: int|
            plain_span(
                indent_text(),
                if row.selection_level == Some(i as nat) {
                    SpanRole::SelectionLevel
                } else {
                    SpanRole::Indent
                },
            ),
    )
}

/// The marker on the selected row, two blanks on the others.
pub open spec fn selection_span(row: ItemView, selection_index: Option<nat>) -> SpanView {
    if selection_index == Some(row.line_number) {
        plain_span(marker_text(), SpanRole::Selection)
    } else {
        plain_span(seq![' ', ' '], SpanRole::Plain)
    }
}

/// The row's name with a colon and a blank, or nothing where it has no
/// name; marked where the name is a search result.
pub open spec fn name_span(row: ItemView) -> SpanView {
    SpanView {
        text: match row.name {
            Some(name) => name + seq![':', ' '],
            None => Seq::empty(),
        },
        role: SpanRole::Name,
        highlighted: row.name_is_search_result,
    }
}

/// The summary of a collapsed container: the number of its children and the
/// word `items`.
pub open spec fn item_count_text(len: nat) -> Seq<char> {
    decimal(len) + " items"@
}

/// The spans of an opening row: the name and the opening bracket, and for a
/// collapsed container also the summary and the closing bracket.
pub open spec fn container_spans(row: ItemView, open: char, close: char) -> Seq<SpanView> {
    if row.collapsed {
        seq![
            name_span(row),
            plain_span(seq![open], SpanRole::Plain),
            plain_span(item_count_text(row.len), SpanRole::ItemCount),
            plain_span(seq![close], SpanRole::Plain),
        ]
    } else {
        seq![name_span(row), plain_span(seq![open], SpanRole::Plain)]
    }
}

/// The spans of the row's name and value.
pub open spec fn value_spans(row: ItemView) -> Seq<SpanView> {
    match row.value {
        ValueView::Number(n) => seq![
            name_span(row),
            SpanView { text: n, role: SpanRole::Number, highlighted: row.value_is_search_result },
        ],
        ValueView::String(s) => seq![
            name_span(row),
            SpanView {
                text: seq!['"'] + s + seq!['"'],
                role: SpanRole::String,
                highlighted: row.value_is_search_result,
            },
        ],
        ValueView::Bool(b) => seq![
            name_span(row),
            SpanView {
                text: ValueView::Bool(b).text(),
                role: SpanRole::Bool,
                highlighted: row.value_is_search_result,
            },
        ],
        ValueView::Array => container_spans(row, '[', ']'),
        ValueView::ArrayEnd => seq![plain_span(seq![']'], SpanRole::Plain)],
        ValueView::Object => container_spans(row, '{', '}'),
        ValueView::ObjectEnd => seq![plain_span(seq!['}'], SpanRole::Plain)],
        ValueView::Null => seq![name_span(row), plain_span("null"@, SpanRole::Null)],
    }
}

/// The pieces of a displayed row, from left to right: number, indentation,
/// selection marker, name and value.
pub open spec fn display_spans(row: ItemView, selection_index: Option<nat>) -> Seq<SpanView> {
    seq![line_number_span(row)] + indent_spans(row) + seq![
        selection_span(row, selection_index),
    ] + value_spans(row)
}

/// A span that is not marked as a search result.
fn plain(text: &str, role: SpanRole) -> (span: DisplaySpan)
    ensures
        span@ == plain_span(text@, role),
{
    DisplaySpan { text: String::from_str(text), role, highlighted: false }
}

proof fn lemma_spans_view_push(spans: Seq<DisplaySpan>, span: DisplaySpan)
    ensures
        spans_view(spans.push(span)) == spans_view(spans).push(span@),
{
}

impl JsonItem {
    /// The span of the row's name.
    fn name_span(&self) -> (span: DisplaySpan)
        ensures
            span@ == name_span(self@),
    {
        let text = match &self.name {
            Some(name) => {
                proof {
                    reveal_strlit(": ");
                }
                let mut text = name.clone();
                text.append(": ");
                assert(text@ =~= name@ + seq![':', ' ']);
                text
            },
            None => String::new(),
        };
        DisplaySpan { text, role: SpanRole::Name, highlighted: self.name_is_search_result }
    }

    /// Appends the spans of an opening row to `output`.
    fn push_container_spans(&self, output: &mut Vec<DisplaySpan>, open: &str, close: &str)
        requires
            open@.len() == 1,
            close@.len() == 1,
        ensures
            spans_view(final(output)@) == spans_view(old(output)@) + container_spans(
                self@,
                open@[0],
                close@[0],
            ),
    {
        assert(open@ =~= seq![open@[0]]);
        assert(close@ =~= seq![close@[0]]);
        let name = self.name_span();
        proof {
            lemma_spans_view_push(output@, name);
        }
        output.push(name);
        let bracket = plain(open, SpanRole::Plain);
        proof {
            lemma_spans_view_push(output@, bracket);
        }
        output.push(bracket);
        if self.collapsed {
            let mut count = decimal_string(self.len);
            count.append(" items");
            let summary = DisplaySpan { text: count, role: SpanRole::ItemCount, highlighted: false };
            proof {
                lemma_spans_view_push(output@, summary);
            }
            output.push(summary);
            let closing = plain(close, SpanRole::Plain);
            proof {
                lemma_spans_view_push(output@, closing);
            }
            output.push(closing);
        }
    }

    /// Appends the spans of the row's name and value to `output`.
    fn push_value_spans(&self, output: &mut Vec<DisplaySpan>)
        ensures
            spans_view(final(output)@) == spans_view(old(output)@) + value_spans(self@),
    {
        let ghost before = spans_view(output@);
        proof {
            reveal_strlit("[");
            reveal_strlit("]");
            reveal_strlit("{");
            reveal_strlit("}");
            reveal_strlit("\"");
        }
        match &self.value {
            JsonValueType::Number(n) => {
                let name = self.name_span();
                proof {
                    lemma_spans_view_push(output@, name);
                }
                output.push(name);
                let value = DisplaySpan {
                    text: n.clone(),
                    role: SpanRole::Number,
                    highlighted: self.value_is_search_result,
                };
                proof {
                    lemma_spans_view_push(output@, value);
                }
                output.push(value);
            },
            JsonValueType::String(s) => {
                let name = self.name_span();
                proof {
                    lemma_spans_view_push(output@, name);
                }
                output.push(name);
                let mut text = String::from_str("\"");
                text.append(s.as_str());
                text.append("\"");
                assert(text@ =~= seq!['"'] + s@ + seq!['"']);
                let value = DisplaySpan {
                    text,
                    role: SpanRole::String,
                    highlighted: self.value_is_search_result,
                };
                proof {
                    lemma_spans_view_push(output@, value);
                }
                output.push(value);
            },
            JsonValueType::Bool(b) => {
                let name = self.name_span();
                proof {
                    lemma_spans_view_push(output@, name);
                }
                output.push(name);
                let text = if *b {
                    String::from_str("true")
                } else {
                    String::from_str("false")
                };
                let value = DisplaySpan {
                    text,
                    role: SpanRole::Bool,
                    highlighted: self.value_is_search_result,
                };
                proof {
                    lemma_spans_view_push(output@, value);
                }
                output.push(value);
            },
            JsonValueType::Array => {
                self.push_container_spans(output, "[", "]");
            },
            JsonValueType::ArrayEnd => {
                let bracket = plain("]", SpanRole::Plain);
                assert("]"@ =~= seq![']']);
                proof {
                    lemma_spans_view_push(output@, bracket);
                }
                output.push(bracket);
            },
            JsonValueType::Object => {
                self.push_container_spans(output, "{", "}");
            },
            JsonValueType::ObjectEnd => {
                let bracket = plain("}", SpanRole::Plain);
                assert("}"@ =~= seq!['}']);
                proof {
                    lemma_spans_view_push(output@, bracket);
                }
                output.push(bracket);
            },
            JsonValueType::Null => {
                let name = self.name_span();
                proof {
                    lemma_spans_view_push(output@, name);
                }
                output.push(name);
                let value = plain("null", SpanRole::Null);
                proof {
                    lemma_spans_view_push(output@, value);
                }
                output.push(value);
            },
        }
    }

    /// Appends one span for each level of the row's depth to `output`.
    fn push_indent_spans(&self, output: &mut Vec<DisplaySpan>)
        ensures
            spans_view(final(output)@) == spans_view(old(output)@) + indent_spans(self@),
    {
        let ghost before = spans_view(output@);
        let mut i: usize = 0;
        while i < self.indent
            invariant
                i <= self.indent,
                spans_view(output@) == before + indent_spans(self@).take(i as int),
            decreases self.indent - i,
        {
            proof {
                reveal_strlit("  \u{2502} ");
            }
            let is_level = match self.selection_level {
                Some(level) => level == i,
                None => false,
            };
            let span = plain(
                "  \u{2502} ",
                if is_level {
                    SpanRole::SelectionLevel
                } else {
                    SpanRole::Indent
                },
            );
            assert(span@.text =~= indent_text());
            proof {
                lemma_spans_view_push(output@, span);
            }
            output.push(span);
            i += 1;
        }
    }

    /// The pieces of the displayed row, from left to right. The row whose
    /// number is `selection_index` carries the selection marker.
    pub fn display_text(&self, selection_index: Option<usize>) -> (spans: Vec<DisplaySpan>)
        ensures
            spans_view(spans@) == display_spans(self@, level_view(selection_index)),
    {
        let mut spans: Vec<DisplaySpan> = Vec::new();
        proof {
            reveal_strlit(" ");
            reveal_strlit("  ");
            reveal_strlit("\u{25b6} ");
        }
        let mut number = padded_decimal_string(self.line_number, 8);
        number.append(" ");
        assert(" "@ =~= seq![' ']);
        let line_number = DisplaySpan { text: number, role: SpanRole::LineNumber, highlighted: false };
        proof {
            lemma_spans_view_push(spans@, line_number);
        }
        spans.push(line_number);
        self.push_indent_spans(&mut spans);
        let is_selected = match selection_index {
            Some(index) => index == self.line_number,
            None => false,
        };
        let marker = if is_selected {
            plain("\u{25b6} ", SpanRole::Selection)
        } else {
            plain("  ", SpanRole::Plain)
        };
        assert(marker@.text =~= selection_span(self@, level_view(selection_index)).text);
        proof {
            lemma_spans_view_push(spans@, marker);
        }
        spans.push(marker);
        self.push_value_spans(&mut spans);
        spans
    }
}

} // verus!

//! The outline of a document: one symbol for each entry, nested as the values are.

use crate::coords::{Mapper, Range};
use crate::dom::{entries_covered, entries_covered_by, EntryNode, RootNode, ValueNode};
use crate::span::Span;
use crate::text::{decimal, decimal_string};
use vstd::prelude::*;
use vstd::string::StringExecFns;

verus! {

#[derive(Clone, Copy, Debug, PartialEq, Eq, Structural)]
pub enum SymbolKind {
    Boolean,
    String,
    Number,
    Field,
    Array,
    Object,
}

/// A named entry of the outline.
pub struct DocumentSymbol {
    pub name: String,
    pub kind: SymbolKind,
    /// The range of the key and the value together.
    pub range: Range,
    /// The range of the key, or of the value where there is no key.
    pub selection_range: Range,
    /// The symbols of the items of an array or of the entries of a table.
    pub children: Option<Vec<DocumentSymbol>>,
}

/// A symbol as a plain value.
pub struct SymbolView {
    pub name: Seq<char>,
    pub kind: SymbolKind,
    pub range: Range,
    pub selection_range: Range,
    pub children: Option<Seq<SymbolView>>,
}

/// The symbols of a list as plain values.
pub open spec fn symbols_view(symbols: Vec<DocumentSymbol>) -> Seq<SymbolView>
    decreases symbols,
{
    Seq::new(
        symbols.len() as nat,
        |i: int|
            if 0 <= i < symbols.len() {
                symbol_view(symbols[i])
            } else {
                arbitrary()
            },
    )
}

/// A symbol as a plain value.
pub open spec fn symbol_view(symbol: DocumentSymbol) -> SymbolView
    decreases symbol,
{
    SymbolView {
        name: symbol.name@,
        kind: symbol.kind,
        range: symbol.range,
        selection_range: symbol.selection_range,
        children: match symbol.children {
            Some(children) => Some(symbols_view(children)),
            None => None,
        },
    }
}

impl View for DocumentSymbol {
    type V = SymbolView;

    open spec fn view(&self) -> SymbolView {
        symbol_view(*self)
    }
}

/// A document: its DOM and the mapper for its text.
pub struct Document {
    pub dom: RootNode,
    pub mapper: Mapper,
}

/// The kind of the symbol of a value; invalid and missing values have no symbol.
pub open spec fn symbol_kind(value: ValueNode) -> Option<SymbolKind> {
    match value {
        ValueNode::Bool(_) => Some(SymbolKind::Boolean),
        ValueNode::String(_) => Some(SymbolKind::String),
        ValueNode::Integer(_) => Some(SymbolKind::Number),
        ValueNode::Float(_) => Some(SymbolKind::Number),
        ValueNode::Date(_) => Some(SymbolKind::Field),
        ValueNode::Array(_) => Some(SymbolKind::Array),
        ValueNode::Table(_) => Some(SymbolKind::Object),
        ValueNode::Invalid(_) => None,
        ValueNode::Empty => None,
    }
}

/// The positions of the two ends of a span.
pub open spec fn range_of(mapper: &Mapper, span: Span) -> Range {
    Range { start: mapper.at(span.start), end: mapper.at(span.end) }
}

/// The range of a symbol: the key and the value together, or the value alone.
pub open spec fn full_range(mapper: &Mapper, key_range: Option<Span>, value: Span) -> Range {
    match key_range {
        Some(key) => range_of(mapper, key.spec_cover(value)),
        None => range_of(mapper, value),
    }
}

/// The range to select for a symbol: the key, or the value where there is no key.
pub open spec fn selection_range(mapper: &Mapper, key_range: Option<Span>, value: Span) -> Range {
    match key_range {
        Some(key) => range_of(mapper, key),
        None => range_of(mapper, value),
    }
}

/// The key, or two apostrophes in place of an empty key.
pub open spec fn non_empty_key(key: Seq<char>) -> Seq<char> {
    if key.len() == 0 {
        seq!['\'', '\'']
    } else {
        key
    }
}

/// The symbols of the first `n` items of an array, named by their indices.
pub open spec fn item_symbols(mapper: &Mapper, items: Vec<ValueNode>, n: nat) -> Seq<SymbolView>
    decreases items, n,
{
    if n == 0 || n > items.len() {
        Seq::empty()
    } else {
        item_symbols(mapper, items, (n - 1) as nat) + value_symbols(
            mapper,
            decimal((n - 1) as nat),
            None,
            items[n - 1],
        )
    }
}

/// The symbols of the first `n` entries of a table, named by their keys.
pub open spec fn entry_symbols(mapper: &Mapper, entries: Vec<EntryNode>, n: nat) -> Seq<SymbolView>
    decreases entries, n,
{
    if n == 0 || n > entries.len() {
        Seq::empty()
    } else {
        entry_symbols(mapper, entries, (n - 1) as nat) + value_symbols(
            mapper,
            entries[n - 1].key.full_key(),
            Some(entries[n - 1].key.span),
            entries[n - 1].value,
        )
    }
}

/// The symbols of the children of a value: of the items of an array, of the
/// entries of a table; other values have none.
pub open spec fn child_symbols(mapper: &Mapper, value: ValueNode) -> Option<Seq<SymbolView>>
    decreases value, 0nat,
{
    match value {
        ValueNode::Array(a) => Some(item_symbols(mapper, a.items, a.items.len() as nat)),
        ValueNode::Table(t) => Some(entry_symbols(mapper, t.entries, t.entries.len() as nat)),
        _ => None,
    }
}

/// The symbol of a value under the given name, as a sequence of one symbol, or
/// of none for an invalid or missing value.
pub open spec fn value_symbols(
    mapper: &Mapper,
    name: Seq<char>,
    key_range: Option<Span>,
    value: ValueNode,
) -> Seq<SymbolView>
    decreases value, 1nat,
{
    match symbol_kind(value) {
        Some(kind) => seq![
            SymbolView {
                name,
                kind,
                range: full_range(mapper, key_range, value.span().unwrap()),
                selection_range: selection_range(mapper, key_range, value.span().unwrap()),
                children: child_symbols(mapper, value),
            },
        ],
        None => Seq::empty(),
    }
}

/// The symbols of the first `n` entries at the top of a document: named by
/// their keys, with two apostrophes for an empty key, and without a key range.
pub open spec fn top_symbols(mapper: &Mapper, entries: Vec<EntryNode>, n: nat) -> Seq<SymbolView>
    decreases n,
{
    if n == 0 || n > entries.len() {
        Seq::empty()
    } else {
        top_symbols(mapper, entries, (n - 1) as nat) + value_symbols(
            mapper,
            non_empty_key(entries[n - 1].key.full_key()),
            None,
            entries[n - 1].value,
        )
    }
}

/// The outline of a document.
pub open spec fn document_symbols(doc: &Document) -> Seq<SymbolView> {
    top_symbols(&doc.mapper, doc.dom.entries, doc.dom.entries.len() as nat)
}

/// Every symbol is a number, a text or a container, and only containers have children.
pub proof fn lemma_children_of_containers(
    mapper: &Mapper,
    name: Seq<char>,
    key_range: Option<Span>,
    value: ValueNode,
)
    ensures
        value_symbols(mapper, name, key_range, value).len() <= 1,
        value_symbols(mapper, name, key_range, value).len() == 1 <==> !(value is Invalid || value
            is Empty),
        value_symbols(mapper, name, key_range, value).len() == 1 ==> {
            let symbol = value_symbols(mapper, name, key_range, value)[0];
            &&& symbol.name == name
            &&& symbol.children is Some <==> (symbol.kind == SymbolKind::Array || symbol.kind
                == SymbolKind::Object)
        },
{
}

fn locate_range(mapper: &Mapper, span: Span) -> (r: Range)
    requires
        mapper.covers(span),
    ensures
        r == range_of(mapper, span),
{
    Range { start: mapper.locate(span.start), end: mapper.locate(span.end) }
}

/// Appends the symbol of `value` to `symbols`: nothing for an invalid or
/// missing value, else one symbol named `name` with the symbols of the
/// value's items or entries as its children.
pub fn symbols_for_value(
    name: String,
    key_range: Option<Span>,
    value: &ValueNode,
    mapper: &Mapper,
    symbols: &mut Vec<DocumentSymbol>,
)
    requires
        value.covered_by(mapper),
        key_range matches Some(key) ==> mapper.covers(key),
    ensures
        symbols_view(*final(symbols)) == symbols_view(*old(symbols)) + value_symbols(
            mapper,
            name@,
            key_range,
            *value,
        ),
    decreases value,
{
    let span = match value.text_range() {
        Some(span) => span,
        None => {
            assert(symbols_view(*symbols) =~= symbols_view(*old(symbols)) + value_symbols(
                mapper,
                name@,
                key_range,
                *value,
            ));
            return ;
        },
    };
    let (kind, children) = match value {
        ValueNode::Bool(_) => (SymbolKind::Boolean, None),
        ValueNode::String(_) => (SymbolKind::String, None),
        ValueNode::Integer(_) => (SymbolKind::Number, None),
        ValueNode::Float(_) => (SymbolKind::Number, None),
        ValueNode::Date(_) => (SymbolKind::Field, None),
        ValueNode::Array(arr) => {
            let mut child_symbols: Vec<DocumentSymbol> = Vec::new();
            let mut i: usize = 0;
            assert(symbols_view(child_symbols) =~= item_symbols(mapper, arr.items, 0));
            while i < arr.items.len()
                invariant
                    i <= arr.items.len(),
                    *value == ValueNode::Array(*arr),
                    value.covered_by(mapper),
                    symbols_view(child_symbols) == item_symbols(mapper, arr.items, i as nat),
                decreases arr.items.len() - i,
            {
                assert(arr.items[i as int].covered_by(mapper));
                symbols_for_value(decimal_string(i), None, &arr.items[i], mapper, &mut child_symbols);
                i += 1;
            }
            (SymbolKind::Array, Some(child_symbols))
        },
        ValueNode::Table(t) => {
            let mut child_symbols: Vec<DocumentSymbol> = Vec::new();
            let mut i: usize = 0;
            assert(symbols_view(child_symbols) =~= entry_symbols(mapper, t.entries, 0));
            while i < t.entries.len()
                invariant
                    i <= t.entries.len(),
                    *value == ValueNode::Table(*t),
                    value.covered_by(mapper),
                    symbols_view(child_symbols) == entry_symbols(mapper, t.entries, i as nat),
                decreases t.entries.len() - i,
            {
                let entry = &t.entries[i];
                assert(mapper.covers(t.entries[i as int].key.span));
                symbols_for_value(
                    entry.key.full_key_string(),
                    Some(entry.key.span),
                    &entry.value,
                    mapper,
                    &mut child_symbols,
                );
                i += 1;
            }
            (SymbolKind::Object, Some(child_symbols))
        },
        ValueNode::Invalid(_) | ValueNode::Empty => {
            assert(symbols_view(*symbols) =~= symbols_view(*old(symbols)) + value_symbols(
                mapper,
                name@,
                key_range,
                *value,
            ));
            return ;
        },
    };
    let own_range = locate_range(mapper, span);
    let range = match key_range {
        Some(key) => locate_range(mapper, key.cover(span)),
        None => own_range,
    };
    let selection_range = match key_range {
        Some(key) => locate_range(mapper, key),
        None => own_range,
    };
    let symbol = DocumentSymbol { name, kind, range, selection_range, children };
    symbols.push(symbol);
    assert(symbols_view(*symbols) =~= symbols_view(*old(symbols)) + value_symbols(
        mapper,
        name@,
        key_range,
        *value,
    ));
}

/// Puts two apostrophes in place of an empty key.
pub fn ensure_non_empty_key(s: String) -> (r: String)
    ensures
        r@ == non_empty_key(s@),
{
    if s.as_str().unicode_len() == 0 {
        proof {
            reveal_strlit("''");
        }
        let r = String::from_str("''");
        assert(r@ =~= seq!['\'', '\'']);
        r
    } else {
        s
    }
}

/// The outline of a document: one symbol for each entry at the top whose
/// value is neither invalid nor missing, in document order.
pub fn create_symbols(doc: &Document) -> (symbols: Vec<DocumentSymbol>)
    requires
        entries_covered_by(doc.dom.entries, &doc.mapper),
    ensures
        symbols_view(symbols) == document_symbols(doc),
{
    let mut symbols: Vec<DocumentSymbol> = Vec::new();
    let mut i: usize = 0;
    assert(symbols_view(symbols) =~= top_symbols(&doc.mapper, doc.dom.entries, 0));
    while i < doc.dom.entries.len()
        invariant
            i <= doc.dom.entries.len(),
            entries_covered_by(doc.dom.entries, &doc.mapper),
            symbols_view(symbols) == top_symbols(&doc.mapper, doc.dom.entries, i as nat),
        decreases doc.dom.entries.len() - i,
    {
        let entry = &doc.dom.entries[i];
        assert(doc.dom.entries[i as int].value.covered_by(&doc.mapper));
        symbols_for_value(
            ensure_non_empty_key(entry.key.full_key_string()),
            None,
            &entry.value,
            &doc.mapper,
            &mut symbols,
        );
        i += 1;
    }
    symbols
}

/// The outline of a document, or nothing for a mapper that does not know the
/// spans of the document.
pub fn try_create_symbols(doc: &Document) -> (r: Option<Vec<DocumentSymbol>>)
    ensures
        r.is_some() == entries_covered_by(doc.dom.entries, &doc.mapper),
        r matches Some(symbols) ==> symbols_view(symbols) == document_symbols(doc),
{
    if entries_covered(&doc.dom.entries, &doc.mapper) {
        Some(create_symbols(doc))
    } else {
        None
    }
}

} // verus!

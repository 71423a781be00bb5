//! A model of the DOM of a document: tables, arrays, keys, entries and typed
//! values, each with the span of the text behind it.

use crate::coords::Mapper;
use crate::span::Span;
use crate::text::{push_char, StrExt};
use vstd::prelude::*;
use vstd::string::StringExecFns;

verus! {

/// The four ways in which a string can be written.
#[derive(Clone, Copy, Debug, PartialEq, Eq, Structural)]
pub enum StringKind {
    Basic,
    MultiLine,
    Literal,
    MultiLineLiteral,
}

/// The base in which an integer is written.
#[derive(Clone, Copy, Debug, PartialEq, Eq, Structural)]
pub enum IntegerRepr {
    Dec,
    Bin,
    Oct,
    Hex,
}

/// A boolean, with its text as written.
pub struct BoolNode {
    pub text: String,
    pub span: Span,
}

/// A string, with its content already decoded.
pub struct StringNode {
    pub kind: StringKind,
    pub content: String,
    pub span: Span,
}

/// An integer, with its text as written.
pub struct IntegerNode {
    pub repr: IntegerRepr,
    pub text: String,
    pub span: Span,
}

/// A float, with its text as written.
pub struct FloatNode {
    pub text: String,
    pub span: Span,
}

/// A date or a time, with its text as written.
pub struct DateNode {
    pub text: String,
    pub span: Span,
}

/// An array with its items in document order.
pub struct ArrayNode {
    pub items: Vec<ValueNode>,
    pub span: Span,
}

/// A key: its dotted segments as written, quotes included.
pub struct KeyNode {
    pub segments: Vec<String>,
    pub span: Span,
}

/// A key with its value.
pub struct EntryNode {
    pub key: KeyNode,
    pub value: ValueNode,
}

/// A table with its entries in document order. The span covers the whole
/// table, its entries included.
pub struct TableNode {
    pub entries: Vec<EntryNode>,
    pub span: Span,
}

/// The top of a document.
pub struct RootNode {
    pub entries: Vec<EntryNode>,
    pub span: Span,
}

pub enum ValueNode {
    Bool(BoolNode),
    String(StringNode),
    Integer(IntegerNode),
    Float(FloatNode),
    Date(DateNode),
    Array(ArrayNode),
    Table(TableNode),
    /// A value that could not be parsed, with the span of its text.
    Invalid(Span),
    /// A value that is missing.
    Empty,
}

pub enum Node {
    Root(RootNode),
    Table(TableNode),
    Entry(EntryNode),
    Key(KeyNode),
    Value(ValueNode),
    Array(ArrayNode),
}

/// The first `n` segments, each changed by `strip` or left as written, joined by dots.
pub open spec fn joined(segments: Seq<String>, n: nat, strip: bool) -> Seq<char>
    decreases n,
{
    if n == 0 || n > segments.len() {
        Seq::empty()
    } else {
        let segment = if strip {
            crate::text::without_quotes(segments[n - 1]@)
        } else {
            segments[n - 1]@
        };
        if n == 1 {
            segment
        } else {
            joined(segments, (n - 1) as nat, strip).push('.') + segment
        }
    }
}

impl KeyNode {
    /// The key as written: its segments joined by dots.
    pub open spec fn full_key(self) -> Seq<char> {
        joined(self.segments@, self.segments.len() as nat, false)
    }

    /// The key with the quotes around each segment removed.
    pub open spec fn full_key_stripped(self) -> Seq<char> {
        joined(self.segments@, self.segments.len() as nat, true)
    }

    /// The first segment of the key as written.
    pub open spec fn spec_first_segment(self) -> Option<Seq<char>> {
        if self.segments.len() > 0 {
            Some(self.segments[0]@)
        } else {
            None
        }
    }

    fn join(&self, strip: bool) -> (r: String)
        ensures
            r@ == joined(self.segments@, self.segments.len() as nat, strip),
    {
        let mut out = String::new();
        let mut i: usize = 0;
        while i < self.segments.len()
            invariant
                i <= self.segments.len(),
                out@ == joined(self.segments@, i as nat, strip),
            decreases self.segments.len() - i,
        {
            if i > 0 {
                push_char(&mut out, '.');
            }
            let segment = self.segments[i].as_str();
            if strip {
                out.append(segment.strip_quotes());
            } else {
                out.append(segment);
            }
            assert(out@ =~= joined(self.segments@, (i + 1) as nat, strip));
            i += 1;
        }
        out
    }

    pub fn full_key_string(&self) -> (r: String)
        ensures
            r@ == self.full_key(),
    {
        self.join(false)
    }

    pub fn full_key_string_stripped(&self) -> (r: String)
        ensures
            r@ == self.full_key_stripped(),
    {
        self.join(true)
    }

    /// The first segment of the key as written, if the key has one.
    pub fn first_segment(&self) -> (r: Option<&str>)
        ensures
            r.is_some() == self.spec_first_segment().is_some(),
            r.is_some() ==> r.unwrap()@ == self.spec_first_segment().unwrap(),
    {
        if self.segments.len() > 0 {
            Some(self.segments[0].as_str())
        } else {
            None
        }
    }
}

impl ValueNode {
    /// The span of the text behind the value; a missing value has none.
    pub open spec fn span(self) -> Option<Span> {
        match self {
            ValueNode::Bool(n) => Some(n.span),
            ValueNode::String(n) => Some(n.span),
            ValueNode::Integer(n) => Some(n.span),
            ValueNode::Float(n) => Some(n.span),
            ValueNode::Date(n) => Some(n.span),
            ValueNode::Array(n) => Some(n.span),
            ValueNode::Table(n) => Some(n.span),
            ValueNode::Invalid(span) => Some(span),
            ValueNode::Empty => None,
        }
    }

    /// The mapper knows the span of the value, of every value inside it and of
    /// every key inside it.
    pub open spec fn covered_by(self, mapper: &Mapper) -> bool
        decreases self,
    {
        match self {
            ValueNode::Array(a) => mapper.covers(a.span) && forall|i: int|
                0 <= i < a.items.len() ==> (#[trigger] a.items[i]).covered_by(mapper),
            ValueNode::Table(t) => mapper.covers(t.span) && forall|i: int|
                0 <= i < t.entries.len() ==> mapper.covers((#[trigger] t.entries[i]).key.span)
                    && t.entries[i].value.covered_by(mapper),
            ValueNode::Empty => true,
            _ => mapper.covers(self.span().unwrap()),
        }
    }

    pub fn text_range(&self) -> (r: Option<Span>)
        ensures
            r == self.span(),
    {
        match self {
            ValueNode::Bool(n) => Some(n.span),
            ValueNode::String(n) => Some(n.span),
            ValueNode::Integer(n) => Some(n.span),
            ValueNode::Float(n) => Some(n.span),
            ValueNode::Date(n) => Some(n.span),
            ValueNode::Array(n) => Some(n.span),
            ValueNode::Table(n) => Some(n.span),
            ValueNode::Invalid(span) => Some(*span),
            ValueNode::Empty => None,
        }
    }

    /// Decides `covered_by`.
    pub fn is_covered_by(&self, mapper: &Mapper) -> (r: bool)
        ensures
            r == self.covered_by(mapper),
        decreases self,
    {
        match self {
            ValueNode::Array(a) => {
                if !mapper.is_covering(a.span) {
                    return false;
                }
                items_covered(&a.items, mapper)
            },
            ValueNode::Table(t) => {
                if !mapper.is_covering(t.span) {
                    return false;
                }
                entries_covered(&t.entries, mapper)
            },
            ValueNode::Empty => true,
            ValueNode::Bool(n) => mapper.is_covering(n.span),
            ValueNode::String(n) => mapper.is_covering(n.span),
            ValueNode::Integer(n) => mapper.is_covering(n.span),
            ValueNode::Float(n) => mapper.is_covering(n.span),
            ValueNode::Date(n) => mapper.is_covering(n.span),
            ValueNode::Invalid(span) => mapper.is_covering(*span),
        }
    }
}

/// Whether the mapper knows the spans of all items and of what is inside them.
fn items_covered(items: &Vec<ValueNode>, mapper: &Mapper) -> (r: bool)
    ensures
        r == forall|i: int| 0 <= i < items.len() ==> (#[trigger] items[i]).covered_by(mapper),
    decreases items,
{
    let mut i: usize = 0;
    while i < items.len()
        invariant
            i <= items.len(),
            forall|j: int| 0 <= j < i ==> (#[trigger] items[j]).covered_by(mapper),
        decreases items.len() - i,
    {
        if !items[i].is_covered_by(mapper) {
            return false;
        }
        i += 1;
    }
    true
}

/// The mapper knows the spans of the keys and of the values of all entries.
pub open spec fn entries_covered_by(entries: Vec<EntryNode>, mapper: &Mapper) -> bool {
    forall|i: int|
        0 <= i < entries.len() ==> mapper.covers((#[trigger] entries[i]).key.span)
            && entries[i].value.covered_by(mapper)
}

/// Decides `entries_covered_by`.
pub fn entries_covered(entries: &Vec<EntryNode>, mapper: &Mapper) -> (r: bool)
    ensures
        r == entries_covered_by(*entries, mapper),
    decreases entries,
{
    let mut i: usize = 0;
    while i < entries.len()
        invariant
            i <= entries.len(),
            forall|j: int|
                0 <= j < i ==> mapper.covers((#[trigger] entries[j]).key.span)
                    && entries[j].value.covered_by(mapper),
        decreases entries.len() - i,
    {
        if !mapper.is_covering(entries[i].key.span) || !entries[i].value.is_covered_by(mapper) {
            return false;
        }
        i += 1;
    }
    true
}

} // verus!

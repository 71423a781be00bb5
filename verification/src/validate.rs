//! Schema validation: what a walk over the DOM offers to a validator, and how
//! the errors of that walk are gathered.
//!
//! A validator is offered a tree of values. Integers are offered at the
//! narrowest width that holds them, dates as the text that their library
//! prints, and every entry of a table and every item of an array is offered
//! whether or not one before it failed.

use crate::date::{print_date, printed_date, DateSupport};
use crate::dom::{ArrayNode, EntryNode, KeyNode, Node, RootNode, TableNode, ValueNode};
use crate::span::Span;
use crate::value::{
    error_message, resolved_bool, resolved_date, resolved_float, resolved_integer, Error, ErrorView,
    Value, ValueView,
};
use vstd::prelude::*;
use vstd::std_specs::convert::FromSpecImpl;

verus! {

/// The span that a node reports to a validator.
#[derive(Clone, Copy, Debug, PartialEq, Eq, Structural)]
pub struct NodeSpan(pub Span);

impl From<Span> for NodeSpan {
    fn from(r: Span) -> (s: NodeSpan) {
        NodeSpan(r)
    }
}

impl FromSpecImpl<Span> for NodeSpan {
    open spec fn obeys_from_spec() -> bool {
        true
    }

    open spec fn from_spec(r: Span) -> NodeSpan {
        NodeSpan(r)
    }
}

/// Values that can take up another of their kind.
pub trait Merge: Sized {
    /// The value after it has taken up `other`.
    spec fn merged(self, other: Self) -> Self;

    /// Takes up `other`.
    fn merge(&mut self, other: Self)
        ensures
            *final(self) == old(self).merged(other),
    ;
}

impl NodeSpan {
    /// Takes up another span: the new span stands in place of the old one.
    pub fn add_assign(&mut self, rhs: NodeSpan)
        ensures
            *final(self) == rhs,
    {
        *self = rhs;
    }
}

impl Merge for NodeSpan {
    open spec fn merged(self, other: NodeSpan) -> NodeSpan {
        other
    }

    fn merge(&mut self, other: NodeSpan) {
        self.add_assign(other);
    }
}

/// What is offered to a validator.
#[derive(Debug, PartialEq, Eq)]
pub enum Validation {
    Bool(bool),
    Str(String),
    I8(i8),
    I16(i16),
    I32(i32),
    I64(i64),
    U8(u8),
    U16(u16),
    U32(u32),
    U64(u64),
    /// A float as its text.
    Float(String),
    /// A sequence: the span to attach before it is entered, then its items.
    Sequence { span: Option<NodeSpan>, items: Vec<Validation> },
    /// A map: the span to attach before it is entered, then its entries, each a key and a value.
    Mapping { span: Option<NodeSpan>, entries: Vec<(Validation, Validation)> },
    /// Nothing is offered; the walk reports an error with this message.
    Error(String),
}

/// An offer as a plain value.
pub enum ValidationView {
    Bool(bool),
    Str(Seq<char>),
    I8(i8),
    I16(i16),
    I32(i32),
    I64(i64),
    U8(u8),
    U16(u16),
    U32(u32),
    U64(u64),
    Float(Seq<char>),
    Sequence { span: Option<NodeSpan>, items: Seq<ValidationView> },
    Mapping { span: Option<NodeSpan>, entries: Seq<(ValidationView, ValidationView)> },
    Error(Seq<char>),
}

/// The offers of a list as plain values.
pub open spec fn offers_view(offers: Vec<Validation>) -> Seq<ValidationView>
    decreases offers,
{
    Seq::new(
        offers.len() as nat,
        |i: int|
            if 0 <= i < offers.len() {
                offer_view(offers[i])
            } else {
                arbitrary()
            },
    )
}

/// The keys and values of a list of entries as plain values.
pub open spec fn pairs_view(pairs: Vec<(Validation, Validation)>) -> Seq<
    (ValidationView, ValidationView),
>
    decreases pairs,
{
    Seq::new(
        pairs.len() as nat,
        |i: int|
            if 0 <= i < pairs.len() {
                (offer_view(pairs[i].0), offer_view(pairs[i].1))
            } else {
                arbitrary()
            },
    )
}

/// An offer as a plain value.
pub open spec fn offer_view(offer: Validation) -> ValidationView
    decreases offer,
{
    match offer {
        Validation::Bool(v) => ValidationView::Bool(v),
        Validation::Str(v) => ValidationView::Str(v@),
        Validation::I8(v) => ValidationView::I8(v),
        Validation::I16(v) => ValidationView::I16(v),
        Validation::I32(v) => ValidationView::I32(v),
        Validation::I64(v) => ValidationView::I64(v),
        Validation::U8(v) => ValidationView::U8(v),
        Validation::U16(v) => ValidationView::U16(v),
        Validation::U32(v) => ValidationView::U32(v),
        Validation::U64(v) => ValidationView::U64(v),
        Validation::Float(v) => ValidationView::Float(v@),
        Validation::Sequence { span, items } => ValidationView::Sequence { span, items: offers_view(items) },
        Validation::Mapping { span, entries } => ValidationView::Mapping {
            span,
            entries: pairs_view(entries),
        },
        Validation::Error(v) => ValidationView::Error(v@),
    }
}

impl View for Validation {
    type V = ValidationView;

    open spec fn view(&self) -> ValidationView {
        offer_view(*self)
    }
}

/// A signed integer at the narrowest width that holds it.
pub open spec fn narrowest_signed(i: i64) -> ValidationView {
    if i8::MIN <= i <= i8::MAX {
        ValidationView::I8(i as i8)
    } else if i16::MIN <= i <= i16::MAX {
        ValidationView::I16(i as i16)
    } else if i32::MIN <= i <= i32::MAX {
        ValidationView::I32(i as i32)
    } else {
        ValidationView::I64(i)
    }
}

/// An unsigned integer at the narrowest width that holds it.
pub open spec fn narrowest_unsigned(u: u64) -> ValidationView {
    if u <= u8::MAX {
        ValidationView::U8(u as u8)
    } else if u <= u16::MAX {
        ValidationView::U16(u as u16)
    } else if u <= u32::MAX {
        ValidationView::U32(u as u32)
    } else {
        ValidationView::U64(u)
    }
}

/// The integer that an offer holds, whatever its width.
pub open spec fn offered_integer(offer: ValidationView) -> Option<int> {
    match offer {
        ValidationView::I8(v) => Some(v as int),
        ValidationView::I16(v) => Some(v as int),
        ValidationView::I32(v) => Some(v as int),
        ValidationView::I64(v) => Some(v as int),
        ValidationView::U8(v) => Some(v as int),
        ValidationView::U16(v) => Some(v as int),
        ValidationView::U32(v) => Some(v as int),
        ValidationView::U64(v) => Some(v as int),
        _ => None,
    }
}

/// Narrowing keeps the value of an integer.
pub proof fn lemma_narrowing_is_lossless(i: i64, u: u64)
    ensures
        offered_integer(narrowest_signed(i)) == Some(i as int),
        offered_integer(narrowest_unsigned(u)) == Some(u as int),
{
}

/// What is offered for a resolved scalar, or the error with which its
/// conversion failed.
pub open spec fn offered_scalar(
    outcome: Result<ValueView, ErrorView>,
    dates: DateSupport,
) -> ValidationView {
    match outcome {
        Ok(ValueView::Bool(v)) => ValidationView::Bool(v),
        Ok(ValueView::String(v)) => ValidationView::Str(v),
        Ok(ValueView::Integer(v)) => narrowest_signed(v),
        Ok(ValueView::UnsizedInteger(v)) => narrowest_unsigned(v),
        Ok(ValueView::Float(v)) => ValidationView::Float(v),
        Ok(ValueView::Date(v)) => match printed_date(dates, v) {
            Some(text) => ValidationView::Str(text),
            None => ValidationView::Error("invalid value"@),
        },
        Ok(_) => ValidationView::Error("invalid value"@),
        Err(error) => ValidationView::Error(error_message(error)),
    }
}

/// What is offered for a key: its first segment as a string.
pub open spec fn offered_key(key: KeyNode) -> ValidationView {
    match key.spec_first_segment() {
        Some(segment) => ValidationView::Str(segment),
        None => ValidationView::Error("no keys"@),
    }
}

/// What is offered for the first `n` items of an array.
pub open spec fn offered_items(items: Vec<ValueNode>, n: nat, dates: DateSupport) -> Seq<
    ValidationView,
>
    decreases items, n,
{
    if n == 0 || n > items.len() {
        Seq::empty()
    } else {
        offered_items(items, (n - 1) as nat, dates).push(offered(items[n - 1], dates))
    }
}

/// What is offered for the first `n` entries of a table.
pub open spec fn offered_entries(entries: Vec<EntryNode>, n: nat, dates: DateSupport) -> Seq<
    (ValidationView, ValidationView),
>
    decreases entries, n,
{
    if n == 0 || n > entries.len() {
        Seq::empty()
    } else {
        offered_entries(entries, (n - 1) as nat, dates).push(
            (offered_key(entries[n - 1].key), offered(entries[n - 1].value, dates)),
        )
    }
}

/// What is offered for a value.
pub open spec fn offered(node: ValueNode, dates: DateSupport) -> ValidationView
    decreases node,
{
    match node {
        ValueNode::Bool(n) => offered_scalar(resolved_bool(n.text@), dates),
        ValueNode::String(n) => ValidationView::Str(n.content@),
        ValueNode::Integer(n) => offered_scalar(resolved_integer(n), dates),
        ValueNode::Float(n) => offered_scalar(resolved_float(n.text@), dates),
        ValueNode::Date(n) => offered_scalar(resolved_date(n.text@, dates), dates),
        ValueNode::Array(n) => ValidationView::Sequence {
            span: Some(NodeSpan(n.span)),
            items: offered_items(n.items, n.items.len() as nat, dates),
        },
        ValueNode::Table(n) => ValidationView::Mapping {
            span: Some(NodeSpan(n.span)),
            entries: offered_entries(n.entries, n.entries.len() as nat, dates),
        },
        ValueNode::Invalid(_) => ValidationView::Error("invalid node"@),
        ValueNode::Empty => ValidationView::Error("empty value"@),
    }
}

/// What is offered for the root of a document: a map with no span attached.
pub open spec fn offered_root(node: RootNode, dates: DateSupport) -> ValidationView {
    ValidationView::Mapping {
        span: None,
        entries: offered_entries(node.entries, node.entries.len() as nat, dates),
    }
}

/// What is offered for a node; an entry is offered as its key and its value, never as one.
pub open spec fn offered_node(node: Node, dates: DateSupport) -> ValidationView {
    match node {
        Node::Root(n) => offered_root(n, dates),
        Node::Table(n) => offered(ValueNode::Table(n), dates),
        Node::Key(n) => offered_key(n),
        Node::Value(n) => offered(n, dates),
        Node::Array(n) => offered(ValueNode::Array(n), dates),
        Node::Entry(n) => offered(n.value, dates),
    }
}

/// Every entry of a table is offered, whatever is offered for the others: as
/// many entries as the table has, each with its own key and value.
pub proof fn lemma_every_entry_is_offered(entries: Vec<EntryNode>, n: nat, dates: DateSupport)
    requires
        n <= entries.len(),
    ensures
        offered_entries(entries, n, dates).len() == n,
        forall|i: int|
            0 <= i < n ==> (#[trigger] offered_entries(entries, n, dates)[i]) == (
                offered_key(entries[i].key),
                offered(entries[i].value, dates),
            ),
    decreases n,
{
    if n > 0 {
        lemma_every_entry_is_offered(entries, (n - 1) as nat, dates);
    }
}

/// Every item of an array is offered, whatever is offered for the others.
pub proof fn lemma_every_item_is_offered(items: Vec<ValueNode>, n: nat, dates: DateSupport)
    requires
        n <= items.len(),
    ensures
        offered_items(items, n, dates).len() == n,
        forall|i: int|
            0 <= i < n ==> (#[trigger] offered_items(items, n, dates)[i]) == offered(items[i], dates),
    decreases n,
{
    if n > 0 {
        lemma_every_item_is_offered(items, (n - 1) as nat, dates);
    }
}

/// The errors gathered so far, after one more outcome: the first error is
/// kept, and each later one is merged into it.
pub open spec fn accumulated<E: Merge>(errors: Option<E>, outcome: Result<(), E>) -> Option<E> {
    match outcome {
        Ok(_) => errors,
        Err(error) => match errors {
            Some(errors) => Some(errors.merged(error)),
            None => Some(error),
        },
    }
}

/// The errors gathered over the first `n` outcomes, in order.
pub open spec fn accumulated_all<E: Merge>(outcomes: Seq<Result<(), E>>, n: nat) -> Option<E>
    decreases n,
{
    if n == 0 || n > outcomes.len() {
        None
    } else {
        accumulated(accumulated_all(outcomes, (n - 1) as nat), outcomes[n - 1])
    }
}

/// The outcome of a walk that gathered the given errors.
pub open spec fn concluded<E>(errors: Option<E>) -> Result<(), E> {
    match errors {
        Some(errors) => Err(errors),
        None => Ok(()),
    }
}

/// A walk fails if and only if one of its outcomes is an error: no error is
/// lost, and none is made up.
pub proof fn lemma_errors_are_kept<E: Merge>(outcomes: Seq<Result<(), E>>, n: nat)
    requires
        n <= outcomes.len(),
    ensures
        accumulated_all(outcomes, n) is Some <==> exists|i: int|
            0 <= i < n && (#[trigger] outcomes[i]) is Err,
    decreases n,
{
    if n > 0 {
        lemma_errors_are_kept(outcomes, (n - 1) as nat);
        if accumulated_all(outcomes, n) is Some {
            if outcomes[n - 1] is Err {
            } else {
                let i = choose|i: int| 0 <= i < n - 1 && (#[trigger] outcomes[i]) is Err;
                assert(outcomes[i] is Err);
            }
        }
    }
}

/// Takes one more outcome into the errors gathered so far.
pub fn accumulate<E: Merge>(errors: Option<E>, outcome: Result<(), E>) -> (r: Option<E>)
    ensures
        r == accumulated(errors, outcome),
{
    match outcome {
        Ok(_) => errors,
        Err(error) => match errors {
            Some(mut errors) => {
                errors.merge(error);
                Some(errors)
            },
            None => Some(error),
        },
    }
}

/// The outcome of a walk that gathered the given errors.
pub fn conclude<E>(errors: Option<E>) -> (r: Result<(), E>)
    ensures
        r == concluded(errors),
{
    match errors {
        Some(errors) => Err(errors),
        None => Ok(()),
    }
}

fn narrow_signed(i: i64) -> (r: Validation)
    ensures
        r@ == narrowest_signed(i),
{
    if -128 <= i && i <= 127 {
        Validation::I8(i as i8)
    } else if -32768 <= i && i <= 32767 {
        Validation::I16(i as i16)
    } else if -2147483648 <= i && i <= 2147483647 {
        Validation::I32(i as i32)
    } else {
        Validation::I64(i)
    }
}

fn narrow_unsigned(u: u64) -> (r: Validation)
    ensures
        r@ == narrowest_unsigned(u),
{
    if u <= 255 {
        Validation::U8(u as u8)
    } else if u <= 65535 {
        Validation::U16(u as u16)
    } else if u <= 4294967295 {
        Validation::U32(u as u32)
    } else {
        Validation::U64(u)
    }
}

/// What is offered for a resolved scalar.
fn offer_scalar(outcome: Result<Value, Error>, dates: DateSupport) -> (r: Validation)
    ensures
        r@ == offered_scalar(crate::value::result_view(outcome), dates),
{
    match outcome {
        Ok(Value::Bool(v)) => Validation::Bool(v),
        Ok(Value::String(v)) => Validation::Str(v),
        Ok(Value::Integer(v)) => narrow_signed(v),
        Ok(Value::UnsizedInteger(v)) => narrow_unsigned(v),
        Ok(Value::Float(v)) => Validation::Float(v),
        Ok(Value::Date(v)) => match print_date(dates, &v) {
            Some(text) => Validation::Str(text),
            None => Validation::Error("invalid value".to_owned()),
        },
        Ok(_) => Validation::Error("invalid value".to_owned()),
        Err(error) => Validation::Error(error.message()),
    }
}

fn offer_items(items: &Vec<ValueNode>, dates: DateSupport) -> (r: Vec<Validation>)
    ensures
        offers_view(r) == offered_items(*items, items.len() as nat, dates),
    decreases items,
{
    let mut offers: Vec<Validation> = Vec::new();
    let mut i: usize = 0;
    assert(offers_view(offers) =~= offered_items(*items, 0, dates));
    while i < items.len()
        invariant
            i <= items.len(),
            offers_view(offers) == offered_items(*items, i as nat, dates),
        decreases items.len() - i,
    {
        let ghost before = offers_view(offers);
        let offer = items[i].validate(dates);
        offers.push(offer);
        assert(offers_view(offers) =~= before.push(offer@));
        i += 1;
    }
    offers
}

fn offer_entries(entries: &Vec<EntryNode>, dates: DateSupport) -> (r: Vec<(Validation, Validation)>)
    ensures
        pairs_view(r) == offered_entries(*entries, entries.len() as nat, dates),
    decreases entries,
{
    let mut offers: Vec<(Validation, Validation)> = Vec::new();
    let mut i: usize = 0;
    assert(pairs_view(offers) =~= offered_entries(*entries, 0, dates));
    while i < entries.len()
        invariant
            i <= entries.len(),
            pairs_view(offers) == offered_entries(*entries, i as nat, dates),
        decreases entries.len() - i,
    {
        let ghost before = pairs_view(offers);
        let key = entries[i].key.validate();
        let value = entries[i].value.validate(dates);
        offers.push((key, value));
        assert(pairs_view(offers) =~= before.push((key@, value@)));
        i += 1;
    }
    offers
}

impl RootNode {
    /// The span that the root reports: an empty span at the start of the
    /// document, not the whole document.
    pub fn span(&self) -> (r: Option<NodeSpan>)
        ensures
            r == Some(NodeSpan(Span { start: 0, end: 0 })),
    {
        Some(NodeSpan(Span { start: 0, end: 0 }))
    }

    /// What a walk over the document offers: a map of all entries, with no span attached.
    pub fn validate(&self, dates: DateSupport) -> (r: Validation)
        ensures
            r@ == offered_root(*self, dates),
    {
        Validation::Mapping { span: None, entries: offer_entries(&self.entries, dates) }
    }
}

impl TableNode {
    pub fn span(&self) -> (r: Option<NodeSpan>)
        ensures
            r == Some(NodeSpan(self.span)),
    {
        Some(NodeSpan(self.span))
    }

    /// What a walk over the table offers: its span, then a map of all entries.
    pub fn validate(&self, dates: DateSupport) -> (r: Validation)
        ensures
            r@ == offered(ValueNode::Table(*self), dates),
        decreases self,
    {
        Validation::Mapping { span: self.span(), entries: offer_entries(&self.entries, dates) }
    }
}

impl ArrayNode {
    pub fn span(&self) -> (r: Option<NodeSpan>)
        ensures
            r == Some(NodeSpan(self.span)),
    {
        Some(NodeSpan(self.span))
    }

    /// What a walk over the array offers: its span, then a sequence of all items.
    pub fn validate(&self, dates: DateSupport) -> (r: Validation)
        ensures
            r@ == offered(ValueNode::Array(*self), dates),
        decreases self,
    {
        Validation::Sequence { span: self.span(), items: offer_items(&self.items, dates) }
    }
}

impl KeyNode {
    pub fn span(&self) -> (r: Option<NodeSpan>)
        ensures
            r == Some(NodeSpan(self.span)),
    {
        Some(NodeSpan(self.span))
    }

    /// What is offered for the key: its first segment as one string.
    pub fn validate(&self) -> (r: Validation)
        ensures
            r@ == offered_key(*self),
    {
        match self.first_segment() {
            Some(segment) => Validation::Str(segment.to_owned()),
            None => Validation::Error("no keys".to_owned()),
        }
    }
}

impl ValueNode {
    /// What is offered for the value.
    pub fn validate(&self, dates: DateSupport) -> (r: Validation)
        ensures
            r@ == offered(*self, dates),
        decreases self,
    {
        match self {
            ValueNode::Bool(n) => offer_scalar(Value::try_from_bool(n), dates),
            ValueNode::String(n) => offer_scalar(Value::try_from_string(n), dates),
            ValueNode::Integer(n) => offer_scalar(Value::try_from_integer(n), dates),
            ValueNode::Float(n) => offer_scalar(Value::try_from_float(n), dates),
            ValueNode::Array(n) => n.validate(dates),
            ValueNode::Date(n) => offer_scalar(Value::try_from_date(n, dates), dates),
            ValueNode::Table(n) => n.validate(dates),
            ValueNode::Invalid(_) => Validation::Error("invalid node".to_owned()),
            ValueNode::Empty => Validation::Error("empty value".to_owned()),
        }
    }
}

impl Node {
    /// What is offered for the node. An entry is never offered as one: its
    /// key and its value are offered apart.
    pub fn validate(&self, dates: DateSupport) -> (r: Validation)
        requires
            !(self is Entry),
        ensures
            r@ == offered_node(*self, dates),
    {
        match self {
            Node::Root(n) => n.validate(dates),
            Node::Table(n) => n.validate(dates),
            Node::Key(n) => n.validate(),
            Node::Value(n) => n.validate(dates),
            Node::Array(n) => n.validate(dates),
            Node::Entry(n) => n.value.validate(dates),
        }
    }
}

} // verus!

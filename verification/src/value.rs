//! Values: what the nodes of a DOM hold, resolved and free of syntax.

use crate::date::{date_text, normalize_date, parse_date, parsed_date, Date, DateSupport};
use crate::dom::{
    ArrayNode, BoolNode, DateNode, EntryNode, FloatNode, IntegerNode, Node, RootNode, StringNode,
    TableNode, ValueNode,
};
use crate::escape::{unescape, unescaped, UnescapeError};
use crate::number::{
    float_text, integer_value, is_float_literal, parse_float, parse_integer, Integer,
};
use crate::text::{chars_eq, chars_of};
use vstd::prelude::*;
use vstd::string::StringExecFns;

verus! {

/// A text could not be read as a date.
#[derive(Debug, PartialEq, Eq)]
pub struct InvalidDateError(String);

impl InvalidDateError {
    /// The text that was taken for a date.
    pub closed spec fn text(&self) -> Seq<char> {
        self.0@
    }

    pub fn new(text: String) -> (r: InvalidDateError)
        ensures
            r.text() == text@,
    {
        InvalidDateError(text)
    }

    /// The text that was taken for a date.
    pub fn date(&self) -> (r: &str)
        ensures
            r@ == self.text(),
    {
        self.0.as_str()
    }

    /// The text that describes the error.
    pub fn message(&self) -> (r: String)
        ensures
            r@ == "invalid date format: \""@ + self.text() + "\""@,
    {
        let mut r = String::from_str("invalid date format: \"");
        r.append(self.0.as_str());
        r.append("\"");
        r
    }
}

/// Why a text could not be resolved.
#[derive(Debug, PartialEq, Eq)]
pub enum Cause {
    Unescape(UnescapeError),
    InvalidDate(InvalidDateError),
    /// The text is no integer, or one that 64 bits cannot hold.
    ParseInt,
    /// The text is no float.
    ParseFloat,
    /// The text is neither `true` nor `false`.
    ParseBool,
}

#[derive(Debug, PartialEq, Eq)]
pub enum Error {
    InvalidValue,
    Other(Cause),
}

/// An error as a plain value.
pub enum ErrorView {
    InvalidValue,
    Unescape,
    InvalidDate(Seq<char>),
    ParseInt,
    ParseFloat,
    ParseBool,
}

impl View for Error {
    type V = ErrorView;

    open spec fn view(&self) -> ErrorView {
        match *self {
            Error::InvalidValue => ErrorView::InvalidValue,
            Error::Other(Cause::Unescape(_)) => ErrorView::Unescape,
            Error::Other(Cause::InvalidDate(e)) => ErrorView::InvalidDate(e.text()),
            Error::Other(Cause::ParseInt) => ErrorView::ParseInt,
            Error::Other(Cause::ParseFloat) => ErrorView::ParseFloat,
            Error::Other(Cause::ParseBool) => ErrorView::ParseBool,
        }
    }
}

/// The text that describes an error.
pub open spec fn error_message(error: ErrorView) -> Seq<char> {
    match error {
        ErrorView::InvalidValue => "invalid value"@,
        ErrorView::Unescape => "the key contains invalid escape sequence"@,
        ErrorView::InvalidDate(text) => "invalid date format: \""@ + text + "\""@,
        ErrorView::ParseInt => "invalid integer"@,
        ErrorView::ParseFloat => "invalid float literal"@,
        ErrorView::ParseBool => "provided string was not `true` or `false`"@,
    }
}

impl Error {
    /// The text that describes the error.
    pub fn message(&self) -> (r: String)
        ensures
            r@ == error_message(self@),
    {
        match self {
            Error::InvalidValue => "invalid value".to_owned(),
            Error::Other(Cause::Unescape(e)) => e.message(),
            Error::Other(Cause::InvalidDate(e)) => e.message(),
            Error::Other(Cause::ParseInt) => "invalid integer".to_owned(),
            Error::Other(Cause::ParseFloat) => "invalid float literal".to_owned(),
            Error::Other(Cause::ParseBool) => "provided string was not `true` or `false`".to_owned(),
        }
    }
}

/// The entries of a table as plain values, in the order of the table.
pub type Entries = Seq<(Seq<char>, ValueView)>;

/// A value as a plain value.
pub enum ValueView {
    Bool(bool),
    UnsizedInteger(u64),
    Integer(i64),
    Float(Seq<char>),
    Date(Date),
    String(Seq<char>),
    Array(Seq<ValueView>),
    Table(Entries),
}

/// A table of values by their keys, in the order in which the keys came.
#[verifier::external_body]
#[derive(Debug, PartialEq)]
pub struct Table {
    entries: indexmap::IndexMap<String, Value>,
}

/// All possible kinds of values in a document.
#[derive(Debug, PartialEq)]
pub enum Value {
    Bool(bool),
    UnsizedInteger(u64),
    Integer(i64),
    /// A float as its text, which follows the grammar of floats.
    Float(String),
    Date(Date),
    String(String),
    Array(Vec<Value>),
    Table(Table),
}

/// The keys and values that a table holds, in its order.
pub uninterp spec fn table_entries(table: Table) -> Entries;

/// The values of a list as plain values.
pub open spec fn values_view(values: Vec<Value>) -> Seq<ValueView>
    decreases values,
{
    Seq::new(
        values.len() as nat,
        |i: int|
            if 0 <= i < values.len() {
                value_view(values[i])
            } else {
                arbitrary()
            },
    )
}

/// A value as a plain value.
pub open spec fn value_view(value: Value) -> ValueView
    decreases value,
{
    match value {
        Value::Bool(v) => ValueView::Bool(v),
        Value::UnsizedInteger(v) => ValueView::UnsizedInteger(v),
        Value::Integer(v) => ValueView::Integer(v),
        Value::Float(v) => ValueView::Float(v@),
        Value::Date(v) => ValueView::Date(v),
        Value::String(v) => ValueView::String(v@),
        Value::Array(v) => ValueView::Array(values_view(v)),
        Value::Table(v) => ValueView::Table(table_entries(v)),
    }
}

impl View for Value {
    type V = ValueView;

    open spec fn view(&self) -> ValueView {
        value_view(*self)
    }
}

impl View for Table {
    type V = Entries;

    open spec fn view(&self) -> Entries {
        table_entries(*self)
    }
}

/// The index of the first entry with the given key.
pub open spec fn key_index(entries: Entries, key: Seq<char>) -> Option<int>
    decreases entries.len(),
{
    if entries.len() == 0 {
        None
    } else {
        match key_index(entries.drop_last(), key) {
            Some(i) => Some(i),
            None => if entries.last().0 == key {
                Some(entries.len() - 1)
            } else {
                None
            },
        }
    }
}

/// The entries after an insertion: the value of an entry with the same key is
/// replaced where it stands; an entry with a new key comes last.
pub open spec fn inserted(entries: Entries, key: Seq<char>, value: ValueView) -> Entries {
    match key_index(entries, key) {
        Some(i) => entries.update(i, (key, value)),
        None => entries.push((key, value)),
    }
}

/// An empty table.
///
/// Calls `IndexMap::new`, which makes a map without entries.
#[verifier::external_body]
fn table_new() -> (table: Table)
    ensures
        table_entries(table) == Entries::empty(),
{
    Table { entries: indexmap::IndexMap::new() }
}

/// Inserts a value under a key.
///
/// Calls `IndexMap::insert`: where the map holds the key, the value takes the
/// place of the old one and the order stays; else the pair comes last.
#[verifier::external_body]
fn table_insert(table: &mut Table, key: String, value: Value)
    ensures
        table_entries(*final(table)) == inserted(table_entries(*old(table)), key@, value@),
{
    table.entries.insert(key, value);
}

/// The number of entries.
///
/// Calls `IndexMap::len`.
#[verifier::external_body]
fn table_len(table: &Table) -> (n: usize)
    ensures
        n == table_entries(*table).len(),
{
    table.entries.len()
}

/// The key and the value at an index.
///
/// Calls `IndexMap::get_index`, which returns the pair at the index in the
/// map's order, or `None` where the index is not below the number of entries.
#[verifier::external_body]
fn table_get_index(table: &Table, index: usize) -> (r: Option<(&String, &Value)>)
    ensures
        r.is_some() == (index < table_entries(*table).len()),
        r matches Some((key, value)) ==> (key@, value@) == table_entries(*table)[index as int],
{
    table.entries.get_index(index)
}

/// The value under a key.
///
/// Calls `IndexMap::get`, which returns the value of the entry with the key,
/// or `None` where the map holds no such entry.
#[verifier::external_body]
fn table_get<'a>(table: &'a Table, key: &str) -> (r: Option<&'a Value>)
    ensures
        r.is_some() == key_index(table_entries(*table), key@).is_some(),
        r matches Some(value) ==> value@ == table_entries(*table)[key_index(
            table_entries(*table),
            key@,
        ).unwrap()].1,
{
    table.entries.get(key)
}

impl Table {
    /// An empty table.
    pub fn new() -> (table: Table)
        ensures
            table@ == Entries::empty(),
    {
        table_new()
    }

    /// Inserts a value under a key: in place of the value that the key had,
    /// or as the last entry where the key is new.
    pub fn insert(&mut self, key: String, value: Value)
        ensures
            final(self)@ == inserted(old(self)@, key@, value@),
    {
        table_insert(self, key, value)
    }

    /// The number of entries.
    pub fn len(&self) -> (n: usize)
        ensures
            n == self@.len(),
    {
        table_len(self)
    }

    /// The key and the value of the entry at an index.
    pub fn get_index(&self, index: usize) -> (r: Option<(&String, &Value)>)
        ensures
            r.is_some() == (index < self@.len()),
            r matches Some((key, value)) ==> (key@, value@) == self@[index as int],
    {
        table_get_index(self, index)
    }

    /// The value of the entry with the given key.
    pub fn get(&self, key: &str) -> (r: Option<&Value>)
        ensures
            r.is_some() == key_index(self@, key@).is_some(),
            r matches Some(value) ==> value@ == self@[key_index(self@, key@).unwrap()].1,
    {
        table_get(self, key)
    }
}

impl Value {
    pub fn as_bool(&self) -> (r: Option<&bool>)
        ensures
            match *self {
                Value::Bool(v) => r == Some(&v),
                _ => r is None,
            },
    {
        match self {
            Value::Bool(v) => Some(v),
            _ => None,
        }
    }

    pub fn into_bool(self) -> (r: Option<bool>)
        ensures
            match self {
                Value::Bool(v) => r == Some(v),
                _ => r is None,
            },
    {
        match self {
            Value::Bool(v) => Some(v),
            _ => None,
        }
    }

    pub fn as_u64(&self) -> (r: Option<&u64>)
        ensures
            match *self {
                Value::UnsizedInteger(v) => r == Some(&v),
                _ => r is None,
            },
    {
        match self {
            Value::UnsizedInteger(v) => Some(v),
            _ => None,
        }
    }

    pub fn into_u64(self) -> (r: Option<u64>)
        ensures
            match self {
                Value::UnsizedInteger(v) => r == Some(v),
                _ => r is None,
            },
    {
        match self {
            Value::UnsizedInteger(v) => Some(v),
            _ => None,
        }
    }

    pub fn as_i64(&self) -> (r: Option<&i64>)
        ensures
            match *self {
                Value::Integer(v) => r == Some(&v),
                _ => r is None,
            },
    {
        match self {
            Value::Integer(v) => Some(v),
            _ => None,
        }
    }

    pub fn into_i64(self) -> (r: Option<i64>)
        ensures
            match self {
                Value::Integer(v) => r == Some(v),
                _ => r is None,
            },
    {
        match self {
            Value::Integer(v) => Some(v),
            _ => None,
        }
    }

    /// The text of a float.
    pub fn as_float(&self) -> (r: Option<&str>)
        ensures
            match *self {
                Value::Float(v) => r matches Some(text) && text@ == v@,
                _ => r is None,
            },
    {
        match self {
            Value::Float(v) => Some(v.as_str()),
            _ => None,
        }
    }

    /// The text of a float.
    pub fn into_float(self) -> (r: Option<String>)
        ensures
            match self {
                Value::Float(v) => r == Some(v),
                _ => r is None,
            },
    {
        match self {
            Value::Float(v) => Some(v),
            _ => None,
        }
    }

    pub fn as_date(&self) -> (r: Option<&Date>)
        ensures
            match *self {
                Value::Date(v) => r == Some(&v),
                _ => r is None,
            },
    {
        match self {
            Value::Date(v) => Some(v),
            _ => None,
        }
    }

    pub fn into_date(self) -> (r: Option<Date>)
        ensures
            match self {
                Value::Date(v) => r == Some(v),
                _ => r is None,
            },
    {
        match self {
            Value::Date(v) => Some(v),
            _ => None,
        }
    }

    pub fn as_str(&self) -> (r: Option<&str>)
        ensures
            match *self {
                Value::String(v) => r matches Some(text) && text@ == v@,
                _ => r is None,
            },
    {
        match self {
            Value::String(v) => Some(v.as_str()),
            _ => None,
        }
    }

    pub fn into_string(self) -> (r: Option<String>)
        ensures
            match self {
                Value::String(v) => r == Some(v),
                _ => r is None,
            },
    {
        match self {
            Value::String(v) => Some(v),
            _ => None,
        }
    }

    pub fn as_array(&self) -> (r: Option<&Vec<Value>>)
        ensures
            match *self {
                Value::Array(v) => r == Some(&v),
                _ => r is None,
            },
    {
        match self {
            Value::Array(v) => Some(v),
            _ => None,
        }
    }

    pub fn into_array(self) -> (r: Option<Vec<Value>>)
        ensures
            match self {
                Value::Array(v) => r == Some(v),
                _ => r is None,
            },
    {
        match self {
            Value::Array(v) => Some(v),
            _ => None,
        }
    }

    pub fn as_map(&self) -> (r: Option<&Table>)
        ensures
            match *self {
                Value::Table(v) => r == Some(&v),
                _ => r is None,
            },
    {
        match self {
            Value::Table(v) => Some(v),
            _ => None,
        }
    }

    pub fn into_map(self) -> (r: Option<Table>)
        ensures
            match self {
                Value::Table(v) => r == Some(v),
                _ => r is None,
            },
    {
        match self {
            Value::Table(v) => Some(v),
            _ => None,
        }
    }
}

/// The outcome of a conversion as a plain value.
pub open spec fn result_view(r: Result<Value, Error>) -> Result<ValueView, ErrorView> {
    match r {
        Ok(value) => Ok(value@),
        Err(error) => Err(error@),
    }
}

/// What a boolean resolves to: its text must be `true` or `false`.
pub open spec fn resolved_bool(text: Seq<char>) -> Result<ValueView, ErrorView> {
    if text == "true"@ {
        Ok(ValueView::Bool(true))
    } else if text == "false"@ {
        Ok(ValueView::Bool(false))
    } else {
        Err(ErrorView::ParseBool)
    }
}

/// What an integer resolves to: a signed integer where the digits fit one,
/// else an unsigned one.
pub open spec fn resolved_integer(node: IntegerNode) -> Result<ValueView, ErrorView> {
    match integer_value(node.repr, node.text@) {
        Some(Integer::Signed(i)) => Ok(ValueView::Integer(i)),
        Some(Integer::Unsigned(u)) => Ok(ValueView::UnsizedInteger(u)),
        None => Err(ErrorView::ParseInt),
    }
}

/// What a float resolves to: its text without digit separators, if that is a float.
pub open spec fn resolved_float(text: Seq<char>) -> Result<ValueView, ErrorView> {
    if is_float_literal(float_text(text)) {
        Ok(ValueView::Float(float_text(text)))
    } else {
        Err(ErrorView::ParseFloat)
    }
}

/// What a date resolves to: the first reading of its text that succeeds, or,
/// without a library for dates, its text as a string.
pub open spec fn resolved_date(text: Seq<char>, dates: DateSupport) -> Result<ValueView, ErrorView> {
    if dates == DateSupport::Text {
        Ok(ValueView::String(date_text(text)))
    } else {
        match parsed_date(dates, date_text(text)) {
            Some(date) => Ok(ValueView::Date(date)),
            None => Err(ErrorView::InvalidDate(date_text(text))),
        }
    }
}

/// What the first `n` items resolve to: their values in order, or the error of
/// the first item that fails.
pub open spec fn resolved_items(items: Vec<ValueNode>, n: nat, dates: DateSupport) -> Result<
    Seq<ValueView>,
    ErrorView,
>
    decreases items, n,
{
    if n == 0 || n > items.len() {
        Ok(Seq::empty())
    } else {
        match resolved_items(items, (n - 1) as nat, dates) {
            Ok(values) => match resolved(items[n - 1], dates) {
                Ok(value) => Ok(values.push(value)),
                Err(error) => Err(error),
            },
            Err(error) => Err(error),
        }
    }
}

/// What the first `n` entries resolve to: their values inserted in order under
/// their unescaped keys, or the error of the first entry that fails, where a
/// key that cannot be unescaped fails before its value.
pub open spec fn resolved_entries(entries: Vec<EntryNode>, n: nat, dates: DateSupport) -> Result<
    Entries,
    ErrorView,
>
    decreases entries, n,
{
    if n == 0 || n > entries.len() {
        Ok(Seq::empty())
    } else {
        match resolved_entries(entries, (n - 1) as nat, dates) {
            Ok(table) => match unescaped(entries[n - 1].key.full_key_stripped()) {
                Some(key) => match resolved(entries[n - 1].value, dates) {
                    Ok(value) => Ok(inserted(table, key, value)),
                    Err(error) => Err(error),
                },
                None => Err(ErrorView::Unescape),
            },
            Err(error) => Err(error),
        }
    }
}

/// The array of the given values.
pub open spec fn array_of(items: Result<Seq<ValueView>, ErrorView>) -> Result<ValueView, ErrorView> {
    match items {
        Ok(values) => Ok(ValueView::Array(values)),
        Err(error) => Err(error),
    }
}

/// The table of the given entries.
pub open spec fn table_of(entries: Result<Entries, ErrorView>) -> Result<ValueView, ErrorView> {
    match entries {
        Ok(entries) => Ok(ValueView::Table(entries)),
        Err(error) => Err(error),
    }
}

/// What a value node resolves to. Invalid and missing values never resolve.
pub open spec fn resolved(node: ValueNode, dates: DateSupport) -> Result<ValueView, ErrorView>
    decreases node,
{
    match node {
        ValueNode::Bool(n) => resolved_bool(n.text@),
        ValueNode::String(n) => Ok(ValueView::String(n.content@)),
        ValueNode::Integer(n) => resolved_integer(n),
        ValueNode::Float(n) => resolved_float(n.text@),
        ValueNode::Date(n) => resolved_date(n.text@, dates),
        ValueNode::Array(n) => array_of(resolved_items(n.items, n.items.len() as nat, dates)),
        ValueNode::Table(n) => table_of(resolved_entries(n.entries, n.entries.len() as nat, dates)),
        ValueNode::Invalid(_) => Err(ErrorView::InvalidValue),
        ValueNode::Empty => Err(ErrorView::InvalidValue),
    }
}

/// What a node resolves to; keys and entries are not values.
pub open spec fn resolved_node(node: Node, dates: DateSupport) -> Result<ValueView, ErrorView> {
    match node {
        Node::Root(n) => table_of(resolved_entries(n.entries, n.entries.len() as nat, dates)),
        Node::Table(n) => resolved(ValueNode::Table(n), dates),
        Node::Value(n) => resolved(n, dates),
        Node::Array(n) => resolved(ValueNode::Array(n), dates),
        Node::Key(_) => Err(ErrorView::InvalidValue),
        Node::Entry(_) => Err(ErrorView::InvalidValue),
    }
}

/// An invalid value and a missing value never resolve: the conversion fails
/// with `InvalidValue`, whatever library reads the dates.
pub proof fn lemma_invalid_never_resolves(node: ValueNode, dates: DateSupport)
    requires
        node is Invalid || node is Empty,
    ensures
        resolved(node, dates) == Err::<ValueView, ErrorView>(ErrorView::InvalidValue),
{
}

/// Once an item has failed, the items after it change nothing.
pub proof fn lemma_items_error_stays(items: Vec<ValueNode>, n: nat, m: nat, dates: DateSupport)
    requires
        n <= m <= items.len(),
        resolved_items(items, n, dates) is Err,
    ensures
        resolved_items(items, m, dates) == resolved_items(items, n, dates),
    decreases m,
{
    if n < m {
        lemma_items_error_stays(items, n, (m - 1) as nat, dates);
    }
}

/// Once an entry has failed, the entries after it change nothing.
pub proof fn lemma_entries_error_stays(entries: Vec<EntryNode>, n: nat, m: nat, dates: DateSupport)
    requires
        n <= m <= entries.len(),
        resolved_entries(entries, n, dates) is Err,
    ensures
        resolved_entries(entries, m, dates) == resolved_entries(entries, n, dates),
    decreases m,
{
    if n < m {
        lemma_entries_error_stays(entries, n, (m - 1) as nat, dates);
    }
}

/// An array resolves only if each of its items does, and then to as many
/// values as it has items.
pub proof fn lemma_array_all_or_nothing(items: Vec<ValueNode>, n: nat, dates: DateSupport)
    requires
        n <= items.len(),
    ensures
        resolved_items(items, n, dates) is Ok <==> forall|i: int|
            0 <= i < n ==> (#[trigger] resolved(items[i], dates)) is Ok,
        resolved_items(items, n, dates) matches Ok(values) ==> values.len() == n && forall|i: int|
            0 <= i < n ==> Ok::<ValueView, ErrorView>(#[trigger] values[i]) == resolved(
                items[i],
                dates,
            ),
    decreases n,
{
    if n > 0 {
        lemma_array_all_or_nothing(items, (n - 1) as nat, dates);
        if forall|i: int| 0 <= i < n ==> (#[trigger] resolved(items[i], dates)) is Ok {
            assert(resolved(items[n - 1], dates) is Ok);
            assert forall|i: int| 0 <= i < n - 1 implies (#[trigger] resolved(
                items[i],
                dates,
            )) is Ok by {}
        }
    }
}

fn str_eq(a: &str, b: &str) -> (r: bool)
    ensures
        r == (a@ == b@),
{
    let x = chars_of(a);
    let y = chars_of(b);
    chars_eq(&x, &y)
}

/// Resolves the entries of a table in order.
fn entries_table(entries: &Vec<EntryNode>, dates: DateSupport) -> (r: Result<Table, Error>)
    ensures
        match r {
            Ok(table) => resolved_entries(*entries, entries.len() as nat, dates) == Ok::<
                Entries,
                ErrorView,
            >(table@),
            Err(error) => resolved_entries(*entries, entries.len() as nat, dates) == Err::<
                Entries,
                ErrorView,
            >(error@),
        },
    decreases entries,
{
    let mut table = Table::new();
    let mut i: usize = 0;
    while i < entries.len()
        invariant
            i <= entries.len(),
            resolved_entries(*entries, i as nat, dates) == Ok::<Entries, ErrorView>(table@),
        decreases entries.len() - i,
    {
        let entry = &entries[i];
        let stripped = entry.key.full_key_string_stripped();
        let key = match unescape(stripped.as_str()) {
            Ok(key) => key,
            Err(e) => {
                proof {
                    lemma_entries_error_stays(*entries, (i + 1) as nat, entries.len() as nat, dates);
                }
                return Err(Error::Other(Cause::Unescape(e)));
            },
        };
        let value = match Value::try_from_value(&entry.value, dates) {
            Ok(value) => value,
            Err(e) => {
                proof {
                    lemma_entries_error_stays(*entries, (i + 1) as nat, entries.len() as nat, dates);
                }
                return Err(e);
            },
        };
        table.insert(key, value);
        i += 1;
    }
    Ok(table)
}

impl Value {
    /// Resolves a node that holds a value: the root, a table, an array or a value.
    pub fn try_from_node(node: &Node, dates: DateSupport) -> (r: Result<Value, Error>)
        requires
            !(node is Key),
            !(node is Entry),
        ensures
            result_view(r) == resolved_node(*node, dates),
    {
        match node {
            Node::Root(n) => Value::try_from_root(n, dates),
            Node::Table(n) => Value::try_from_table(n, dates),
            Node::Value(n) => Value::try_from_value(n, dates),
            Node::Array(n) => Value::try_from_array(n, dates),
            _ => Err(Error::InvalidValue),
        }
    }

    /// Resolves the root of a document into a table.
    pub fn try_from_root(node: &RootNode, dates: DateSupport) -> (r: Result<Value, Error>)
        ensures
            result_view(r) == table_of(
                resolved_entries(node.entries, node.entries.len() as nat, dates),
            ),
    {
        match entries_table(&node.entries, dates) {
            Ok(table) => Ok(Value::Table(table)),
            Err(e) => Err(e),
        }
    }

    /// Resolves a table: every entry in order, all or nothing.
    pub fn try_from_table(node: &TableNode, dates: DateSupport) -> (r: Result<Value, Error>)
        ensures
            result_view(r) == resolved(ValueNode::Table(*node), dates),
        decreases node,
    {
        match entries_table(&node.entries, dates) {
            Ok(table) => Ok(Value::Table(table)),
            Err(e) => Err(e),
        }
    }

    /// Resolves an array: every item in order, all or nothing.
    pub fn try_from_array(node: &ArrayNode, dates: DateSupport) -> (r: Result<Value, Error>)
        ensures
            result_view(r) == resolved(ValueNode::Array(*node), dates),
        decreases node,
    {
        let mut values: Vec<Value> = Vec::new();
        let mut i: usize = 0;
        assert(values_view(values) =~= Seq::<ValueView>::empty());
        while i < node.items.len()
            invariant
                i <= node.items.len(),
                resolved_items(node.items, i as nat, dates) == Ok::<Seq<ValueView>, ErrorView>(
                    values_view(values),
                ),
            decreases node.items.len() - i,
        {
            let ghost before = values_view(values);
            match Value::try_from_value(&node.items[i], dates) {
                Ok(value) => {
                    values.push(value);
                    assert(values_view(values) =~= before.push(value@));
                },
                Err(e) => {
                    proof {
                        lemma_items_error_stays(
                            node.items,
                            (i + 1) as nat,
                            node.items.len() as nat,
                            dates,
                        );
                    }
                    return Err(e);
                },
            }
            i += 1;
        }
        Ok(Value::Array(values))
    }

    /// Resolves a value node. Invalid and missing values fail with `InvalidValue`.
    pub fn try_from_value(node: &ValueNode, dates: DateSupport) -> (r: Result<Value, Error>)
        ensures
            result_view(r) == resolved(*node, dates),
        decreases node,
    {
        match node {
            ValueNode::Bool(n) => Value::try_from_bool(n),
            ValueNode::String(n) => Value::try_from_string(n),
            ValueNode::Integer(n) => Value::try_from_integer(n),
            ValueNode::Float(n) => Value::try_from_float(n),
            ValueNode::Array(n) => Value::try_from_array(n, dates),
            ValueNode::Date(n) => Value::try_from_date(n, dates),
            ValueNode::Table(n) => Value::try_from_table(n, dates),
            ValueNode::Invalid(_) => Err(Error::InvalidValue),
            ValueNode::Empty => Err(Error::InvalidValue),
        }
    }

    pub fn try_from_bool(node: &BoolNode) -> (r: Result<Value, Error>)
        ensures
            result_view(r) == resolved_bool(node.text@),
    {
        if str_eq(node.text.as_str(), "true") {
            Ok(Value::Bool(true))
        } else if str_eq(node.text.as_str(), "false") {
            Ok(Value::Bool(false))
        } else {
            Err(Error::Other(Cause::ParseBool))
        }
    }

    /// Resolves a string to its content, whatever way it was written in.
    pub fn try_from_string(node: &StringNode) -> (r: Result<Value, Error>)
        ensures
            result_view(r) == Ok::<ValueView, ErrorView>(ValueView::String(node.content@)),
    {
        Ok(Value::String(node.content.clone()))
    }

    /// Resolves an integer: the digit separators and the prefix of the base
    /// are dropped; the value is signed where it fits, else unsigned.
    pub fn try_from_integer(node: &IntegerNode) -> (r: Result<Value, Error>)
        ensures
            result_view(r) == resolved_integer(*node),
    {
        match parse_integer(node.repr, node.text.as_str()) {
            Some(Integer::Signed(i)) => Ok(Value::Integer(i)),
            Some(Integer::Unsigned(u)) => Ok(Value::UnsizedInteger(u)),
            None => Err(Error::Other(Cause::ParseInt)),
        }
    }

    /// Resolves a float to its text without digit separators.
    pub fn try_from_float(node: &FloatNode) -> (r: Result<Value, Error>)
        ensures
            result_view(r) == resolved_float(node.text@),
    {
        match parse_float(node.text.as_str()) {
            Some(text) => Ok(Value::Float(text)),
            None => Err(Error::Other(Cause::ParseFloat)),
        }
    }

    /// Resolves a date with the given library; without one, to a string.
    pub fn try_from_date(node: &DateNode, dates: DateSupport) -> (r: Result<Value, Error>)
        ensures
            result_view(r) == resolved_date(node.text@, dates),
    {
        let text = normalize_date(node.text.as_str());
        match dates {
            DateSupport::Text => Ok(Value::String(text)),
            _ => match parse_date(dates, text.as_str()) {
                Some(date) => Ok(Value::Date(date)),
                None => Err(Error::Other(Cause::InvalidDate(InvalidDateError::new(text)))),
            },
        }
    }
}

} // verus!

use taplo::date::DateSupport;
use taplo::dom::{
    ArrayNode, BoolNode, DateNode, EntryNode, FloatNode, IntegerNode, IntegerRepr, KeyNode, Node,
    RootNode, StringKind, StringNode, TableNode, ValueNode,
};
use taplo::span::Span;
use taplo::validate::{accumulate, conclude, Merge, NodeSpan, Validation};

fn span(start: u32, end: u32) -> Span {
    Span { start, end }
}

fn key(text: &str) -> KeyNode {
    KeyNode { segments: vec![text.to_string()], span: span(0, 1) }
}

fn integer(text: &str) -> ValueNode {
    ValueNode::Integer(IntegerNode {
        repr: IntegerRepr::Dec,
        text: text.to_string(),
        span: span(0, 1),
    })
}

fn boolean(text: &str) -> ValueNode {
    ValueNode::Bool(BoolNode { text: text.to_string(), span: span(0, 1) })
}

fn offer(node: &ValueNode) -> Validation {
    node.validate(DateSupport::Chrono)
}

/// The errors of a walk: their messages in the order in which they were met.
#[derive(Debug, PartialEq)]
struct Errors(Vec<String>);

impl Merge for Errors {
    fn merged(mut self, other: Errors) -> Errors {
        self.0.extend(other.0);
        self
    }

    fn merge(&mut self, other: Errors) {
        self.0.extend(other.0);
    }
}

/// A validator that accepts every value but the boolean `false` and notes what it was offered.
struct Recorder {
    seen: Vec<String>,
    spans: Vec<Option<NodeSpan>>,
}

impl Recorder {
    fn scalar(&mut self, what: String) -> Result<(), Errors> {
        self.seen.push(what.clone());
        if what == "bool false" {
            Err(Errors(vec!["false is not allowed".to_string()]))
        } else {
            Ok(())
        }
    }

    fn walk(&mut self, offer: &Validation) -> Result<(), Errors> {
        match offer {
            Validation::Bool(v) => self.scalar(format!("bool {}", v)),
            Validation::Str(v) => self.scalar(format!("str {}", v)),
            Validation::I8(v) => self.scalar(format!("i8 {}", v)),
            Validation::I16(v) => self.scalar(format!("i16 {}", v)),
            Validation::I32(v) => self.scalar(format!("i32 {}", v)),
            Validation::I64(v) => self.scalar(format!("i64 {}", v)),
            Validation::U8(v) => self.scalar(format!("u8 {}", v)),
            Validation::U16(v) => self.scalar(format!("u16 {}", v)),
            Validation::U32(v) => self.scalar(format!("u32 {}", v)),
            Validation::U64(v) => self.scalar(format!("u64 {}", v)),
            Validation::Float(v) => self.scalar(format!("float {}", v)),
            Validation::Error(message) => Err(Errors(vec![message.clone()])),
            Validation::Sequence { span, items } => {
                self.spans.push(*span);
                let mut errors = None;
                for item in items {
                    errors = accumulate(errors, self.walk(item));
                }
                conclude(errors)
            }
            Validation::Mapping { span, entries } => {
                self.spans.push(*span);
                let mut errors = None;
                for (key, value) in entries {
                    let outcome = match self.walk(key) {
                        Ok(()) => self.walk(value),
                        Err(e) => Err(e),
                    };
                    errors = accumulate(errors, outcome);
                }
                conclude(errors)
            }
        }
    }
}

#[test]
fn a_malformed_entry_is_reported_and_the_others_are_still_visited() {
    let table = TableNode {
        entries: vec![
            EntryNode { key: key("bad"), value: ValueNode::Invalid(span(0, 1)) },
            EntryNode { key: key("good"), value: boolean("true") },
        ],
        span: span(3, 9),
    };
    let plan = table.validate(DateSupport::Chrono);
    assert_eq!(
        plan,
        Validation::Mapping {
            span: Some(NodeSpan(span(3, 9))),
            entries: vec![
                (Validation::Str("bad".to_string()), Validation::Error("invalid node".to_string())),
                (Validation::Str("good".to_string()), Validation::Bool(true)),
            ],
        }
    );
    let mut recorder = Recorder { seen: vec![], spans: vec![] };
    let outcome = recorder.walk(&plan);
    assert_eq!(outcome, Err(Errors(vec!["invalid node".to_string()])));
    assert_eq!(recorder.seen, vec!["str bad", "str good", "bool true"]);
    assert_eq!(recorder.spans, vec![Some(NodeSpan(span(3, 9)))]);
}

#[test]
fn errors_are_merged_in_the_order_of_the_walk() {
    let array = ArrayNode {
        items: vec![
            ValueNode::Empty,
            boolean("false"),
            integer("1"),
            ValueNode::Invalid(span(0, 1)),
            boolean("maybe"),
        ],
        span: span(1, 2),
    };
    let plan = array.validate(DateSupport::Text);
    let mut recorder = Recorder { seen: vec![], spans: vec![] };
    assert_eq!(
        recorder.walk(&plan),
        Err(Errors(vec![
            "empty value".to_string(),
            "false is not allowed".to_string(),
            "invalid node".to_string(),
            "provided string was not `true` or `false`".to_string(),
        ]))
    );
    assert_eq!(recorder.seen, vec!["bool false", "i8 1"]);
    let fine = ArrayNode { items: vec![integer("1"), integer("2")], span: span(1, 2) };
    let mut recorder = Recorder { seen: vec![], spans: vec![] };
    assert_eq!(recorder.walk(&fine.validate(DateSupport::Text)), Ok(()));
}

#[test]
fn outcomes_accumulate() {
    let none: Option<Errors> = None;
    assert_eq!(accumulate(none, Ok(())), None);
    assert_eq!(accumulate(None, Err(Errors(vec!["a".to_string()]))), Some(Errors(vec!["a".to_string()])));
    assert_eq!(
        accumulate(Some(Errors(vec!["a".to_string()])), Ok(())),
        Some(Errors(vec!["a".to_string()]))
    );
    assert_eq!(
        accumulate(Some(Errors(vec!["a".to_string()])), Err(Errors(vec!["b".to_string()]))),
        Some(Errors(vec!["a".to_string(), "b".to_string()]))
    );
    assert_eq!(conclude(Some(Errors(vec![]))), Err(Errors(vec![])));
    assert_eq!(conclude::<Errors>(None), Ok(()));
}

#[test]
fn a_later_span_takes_the_place_of_an_earlier_one() {
    let mut a = NodeSpan(span(0, 10));
    a.add_assign(NodeSpan(span(3, 4)));
    assert_eq!(a, NodeSpan(span(3, 4)));
    let mut b = NodeSpan(span(0, 10));
    b.merge(NodeSpan(span(20, 21)));
    assert_eq!(b, NodeSpan(span(20, 21)));
    assert_eq!(NodeSpan::from(span(1, 2)), NodeSpan(span(1, 2)));
    assert_eq!(accumulate(Some(a), Err(b)), Some(b));
}

#[test]
fn integers_are_offered_at_the_narrowest_width() {
    let cases: Vec<(&str, Validation)> = vec![
        ("0", Validation::I8(0)),
        ("127", Validation::I8(127)),
        ("-128", Validation::I8(-128)),
        ("128", Validation::I16(128)),
        ("-129", Validation::I16(-129)),
        ("32767", Validation::I16(32767)),
        ("32768", Validation::I32(32768)),
        ("-32769", Validation::I32(-32769)),
        ("2147483647", Validation::I32(2147483647)),
        ("2147483648", Validation::I64(2147483648)),
        ("-2147483649", Validation::I64(-2147483649)),
        ("9223372036854775807", Validation::I64(i64::MAX)),
        ("9223372036854775808", Validation::U64(9223372036854775808)),
        ("18446744073709551615", Validation::U64(u64::MAX)),
        ("18446744073709551616", Validation::Error("invalid integer".to_string())),
    ];
    for (text, expected) in cases {
        assert_eq!(offer(&integer(text)), expected, "{}", text);
    }
}

#[test]
fn scalars_are_offered_as_they_resolve() {
    assert_eq!(offer(&boolean("true")), Validation::Bool(true));
    assert_eq!(
        offer(&boolean("yes")),
        Validation::Error("provided string was not `true` or `false`".to_string())
    );
    let s = ValueNode::String(StringNode {
        kind: StringKind::Literal,
        content: "text".to_string(),
        span: span(0, 1),
    });
    assert_eq!(offer(&s), Validation::Str("text".to_string()));
    let f = ValueNode::Float(FloatNode { text: "1_0.5".to_string(), span: span(0, 1) });
    assert_eq!(offer(&f), Validation::Float("10.5".to_string()));
    let bad = ValueNode::Float(FloatNode { text: "1.5.5".to_string(), span: span(0, 1) });
    assert_eq!(offer(&bad), Validation::Error("invalid float literal".to_string()));
    assert_eq!(offer(&ValueNode::Invalid(span(0, 1))), Validation::Error("invalid node".to_string()));
    assert_eq!(offer(&ValueNode::Empty), Validation::Error("empty value".to_string()));
}

#[test]
fn dates_are_offered_as_text() {
    let date = |text: &str| ValueNode::Date(DateNode { text: text.to_string(), span: span(0, 1) });
    assert_eq!(
        date("1979-05-27 07:32:00Z").validate(DateSupport::Chrono),
        Validation::Str("1979-05-27T07:32:00+00:00".to_string())
    );
    assert_eq!(
        date("1979-05-27 07:32:00Z").validate(DateSupport::Time),
        Validation::Str("1979-05-27T07:32:00+00:00".to_string())
    );
    assert_eq!(
        date("1979-05-27 07:32:00Z").validate(DateSupport::Text),
        Validation::Str("1979-05-27T07:32:00Z".to_string())
    );
    assert_eq!(
        date("1979-05-27").validate(DateSupport::Chrono),
        Validation::Str("1979-05-27".to_string())
    );
    assert_eq!(
        date("07:32:09").validate(DateSupport::Chrono),
        Validation::Str("07:32:09".to_string())
    );
    assert_eq!(
        date("1979-05-27T07:32:09").validate(DateSupport::Chrono),
        Validation::Str("1979-05-27 07:32:09".to_string())
    );
    assert_eq!(
        date("tomorrow").validate(DateSupport::Chrono),
        Validation::Error("invalid date format: \"Tomorrow\"".to_string())
    );
}

#[test]
fn keys_are_offered_as_their_first_segment() {
    assert_eq!(key("a").validate(), Validation::Str("a".to_string()));
    let dotted = KeyNode { segments: vec!["a".to_string(), "b".to_string()], span: span(0, 3) };
    assert_eq!(dotted.validate(), Validation::Str("a".to_string()));
    let none = KeyNode { segments: vec![], span: span(0, 0) };
    assert_eq!(none.validate(), Validation::Error("no keys".to_string()));
    assert_eq!(dotted.span(), Some(NodeSpan(span(0, 3))));
}

#[test]
fn the_root_attaches_no_span_and_reports_an_empty_one() {
    let root = RootNode {
        entries: vec![EntryNode {
            key: key("a"),
            value: ValueNode::Array(ArrayNode { items: vec![integer("300")], span: span(4, 9) }),
        }],
        span: span(0, 9),
    };
    assert_eq!(root.span(), Some(NodeSpan(span(0, 0))));
    let plan = root.validate(DateSupport::Chrono);
    assert_eq!(
        plan,
        Validation::Mapping {
            span: None,
            entries: vec![(
                Validation::Str("a".to_string()),
                Validation::Sequence {
                    span: Some(NodeSpan(span(4, 9))),
                    items: vec![Validation::I16(300)],
                },
            )],
        }
    );
    let mut recorder = Recorder { seen: vec![], spans: vec![] };
    assert_eq!(recorder.walk(&plan), Ok(()));
    assert_eq!(recorder.spans, vec![None, Some(NodeSpan(span(4, 9)))]);
    assert_eq!(Node::Root(root).validate(DateSupport::Chrono), plan);
}

#[test]
fn nodes_are_offered_by_their_kind() {
    let table = TableNode { entries: vec![], span: span(2, 5) };
    assert_eq!(table.span(), Some(NodeSpan(span(2, 5))));
    assert_eq!(
        Node::Table(table).validate(DateSupport::Text),
        Validation::Mapping { span: Some(NodeSpan(span(2, 5))), entries: vec![] }
    );
    let array = ArrayNode { items: vec![], span: span(1, 3) };
    assert_eq!(array.span(), Some(NodeSpan(span(1, 3))));
    assert_eq!(
        Node::Array(array).validate(DateSupport::Text),
        Validation::Sequence { span: Some(NodeSpan(span(1, 3))), items: vec![] }
    );
    assert_eq!(Node::Key(key("k")).validate(DateSupport::Text), Validation::Str("k".to_string()));
    assert_eq!(Node::Value(boolean("false")).validate(DateSupport::Text), Validation::Bool(false));
}

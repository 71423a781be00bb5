use taplo::date::{
    parse_date, print_date, select_date, Date, DateSupport, LocalDate, LocalDateTime, LocalTime,
    OffsetDateTime,
};
use taplo::dom::{
    ArrayNode, BoolNode, DateNode, EntryNode, FloatNode, IntegerNode, IntegerRepr, KeyNode, Node,
    RootNode, StringKind, StringNode, TableNode, ValueNode,
};
use taplo::escape::{unescape, UnescapeError};
use taplo::number::{parse_float, parse_integer, Integer};
use taplo::span::Span;
use taplo::value::{Cause, Error, InvalidDateError, Table, Value};

fn span() -> Span {
    Span { start: 0, end: 1 }
}

fn integer(repr: IntegerRepr, text: &str) -> ValueNode {
    ValueNode::Integer(IntegerNode { repr, text: text.to_string(), span: span() })
}

fn resolve(node: &ValueNode) -> Result<Value, Error> {
    Value::try_from_value(node, DateSupport::Chrono)
}

fn key(text: &str) -> KeyNode {
    KeyNode { segments: vec![text.to_string()], span: span() }
}

fn date(text: &str) -> ValueNode {
    ValueNode::Date(DateNode { text: text.to_string(), span: span() })
}

#[test]
fn integers_resolve_signed_first_then_unsigned() {
    assert_eq!(resolve(&integer(IntegerRepr::Hex, "0x1A")), Ok(Value::Integer(26)));
    assert_eq!(
        resolve(&integer(IntegerRepr::Dec, "18446744073709551615")),
        Ok(Value::UnsizedInteger(u64::MAX))
    );
    assert_eq!(
        resolve(&integer(IntegerRepr::Dec, "9223372036854775808")),
        Ok(Value::UnsizedInteger(9223372036854775808))
    );
    assert_eq!(
        resolve(&integer(IntegerRepr::Dec, "9223372036854775807")),
        Ok(Value::Integer(i64::MAX))
    );
    assert_eq!(
        resolve(&integer(IntegerRepr::Dec, "-9223372036854775808")),
        Ok(Value::Integer(i64::MIN))
    );
    assert_eq!(
        resolve(&integer(IntegerRepr::Dec, "18446744073709551616")),
        Err(Error::Other(Cause::ParseInt))
    );
    assert_eq!(
        resolve(&integer(IntegerRepr::Dec, "-9223372036854775809")),
        Err(Error::Other(Cause::ParseInt))
    );
}

#[test]
fn integer_literals_in_every_base() {
    assert_eq!(parse_integer(IntegerRepr::Dec, "1_000"), Some(Integer::Signed(1000)));
    assert_eq!(parse_integer(IntegerRepr::Dec, "+17"), Some(Integer::Signed(17)));
    assert_eq!(parse_integer(IntegerRepr::Dec, "-17"), Some(Integer::Signed(-17)));
    assert_eq!(parse_integer(IntegerRepr::Dec, "007"), Some(Integer::Signed(7)));
    assert_eq!(parse_integer(IntegerRepr::Bin, "0b1101_0110"), Some(Integer::Signed(214)));
    assert_eq!(parse_integer(IntegerRepr::Oct, "0o755"), Some(Integer::Signed(493)));
    assert_eq!(parse_integer(IntegerRepr::Hex, "0xDEAD_beef"), Some(Integer::Signed(0xdead_beef)));
    assert_eq!(
        parse_integer(IntegerRepr::Hex, "0xFFFF_FFFF_FFFF_FFFF"),
        Some(Integer::Unsigned(u64::MAX))
    );
    assert_eq!(parse_integer(IntegerRepr::Hex, "0x0x1A"), Some(Integer::Signed(26)));
    assert_eq!(parse_integer(IntegerRepr::Dec, ""), None);
    assert_eq!(parse_integer(IntegerRepr::Dec, "_"), None);
    assert_eq!(parse_integer(IntegerRepr::Dec, "+"), None);
    assert_eq!(parse_integer(IntegerRepr::Dec, "-"), None);
    assert_eq!(parse_integer(IntegerRepr::Dec, "+-1"), None);
    assert_eq!(parse_integer(IntegerRepr::Dec, "12a"), None);
    assert_eq!(parse_integer(IntegerRepr::Dec, "0x1A"), None);
    assert_eq!(parse_integer(IntegerRepr::Bin, "0b102"), None);
    assert_eq!(parse_integer(IntegerRepr::Oct, "0o8"), None);
    assert_eq!(parse_integer(IntegerRepr::Hex, "0xG"), None);
    assert_eq!(parse_integer(IntegerRepr::Hex, "0x"), None);
}

#[test]
fn integer_parsing_agrees_with_the_standard_library() {
    let texts = [
        "0", "1", "-1", "+1", "00012", "9223372036854775807", "9223372036854775808",
        "-9223372036854775808", "-9223372036854775809", "18446744073709551615",
        "18446744073709551616", "99999999999999999999999999", "", "+", "-", "--1", "1-", "a", "z",
        "1 ", " 1", "7f", "7F", "-ff", "+777", "１",
    ];
    for text in texts {
        for (repr, radix) in [
            (IntegerRepr::Dec, 10),
            (IntegerRepr::Bin, 2),
            (IntegerRepr::Oct, 8),
            (IntegerRepr::Hex, 16),
        ] {
            let expected = match i64::from_str_radix(text, radix) {
                Ok(i) => Some(Integer::Signed(i)),
                Err(_) => match u64::from_str_radix(text, radix) {
                    Ok(u) => Some(Integer::Unsigned(u)),
                    Err(_) => None,
                },
            };
            assert_eq!(parse_integer(repr, text), expected, "{:?} in base {}", text, radix);
        }
    }
}

#[test]
fn floats_resolve_to_their_text() {
    let float = |text: &str| ValueNode::Float(FloatNode { text: text.to_string(), span: span() });
    assert_eq!(resolve(&float("3.14")), Ok(Value::Float("3.14".to_string())));
    assert_eq!(resolve(&float("1_000.5")), Ok(Value::Float("1000.5".to_string())));
    assert_eq!(resolve(&float("-nan")), Ok(Value::Float("-NaN".to_string())));
    assert_eq!(resolve(&float("+inf")), Ok(Value::Float("+inf".to_string())));
    assert_eq!(resolve(&float("6.626e-34")), Ok(Value::Float("6.626e-34".to_string())));
    assert_eq!(resolve(&float("1e")), Err(Error::Other(Cause::ParseFloat)));
    assert_eq!(resolve(&float("")), Err(Error::Other(Cause::ParseFloat)));
    assert_eq!(resolve(&float("abc")), Err(Error::Other(Cause::ParseFloat)));
}

#[test]
fn the_grammar_of_floats_agrees_with_the_standard_library() {
    let texts = [
        "0", "1", "-1", "+1", "1.", ".5", ".", "1.5", "1e5", "1E5", "1e+5", "1e-5", "1e", "e5",
        "1.e5", ".5e5", ".e5", "inf", "-inf", "+infinity", "Infinity", "INF", "nan", "NaN", "-NaN",
        "nane", "infinit", "1e5.0", "1..2", "1.2.3", "--1", "+-1", "", "+", "-", " 1", "1 ",
        "0x10", "1e1e1", "12345678901234567890123456789", "1f", "١",
    ];
    for text in texts {
        let expected = text.parse::<f64>().is_ok();
        assert_eq!(parse_float(text).is_some(), expected, "{:?}", text);
    }
    assert_eq!(parse_float("1_0"), Some("10".to_string()));
    assert_eq!(parse_float("nan"), Some("NaN".to_string()));
    assert_eq!(parse_float("nanan"), None);
}

#[test]
fn bools_and_strings_resolve() {
    let b = |text: &str| ValueNode::Bool(BoolNode { text: text.to_string(), span: span() });
    assert_eq!(resolve(&b("true")), Ok(Value::Bool(true)));
    assert_eq!(resolve(&b("false")), Ok(Value::Bool(false)));
    assert_eq!(resolve(&b("True")), Err(Error::Other(Cause::ParseBool)));
    for kind in [
        StringKind::Basic,
        StringKind::MultiLine,
        StringKind::Literal,
        StringKind::MultiLineLiteral,
    ] {
        let s = ValueNode::String(StringNode { kind, content: "a\nb".to_string(), span: span() });
        assert_eq!(resolve(&s), Ok(Value::String("a\nb".to_string())));
    }
}

#[test]
fn invalid_and_missing_values_never_resolve() {
    for dates in [DateSupport::Chrono, DateSupport::Time, DateSupport::Text] {
        assert_eq!(
            Value::try_from_value(&ValueNode::Invalid(span()), dates),
            Err(Error::InvalidValue)
        );
        assert_eq!(Value::try_from_value(&ValueNode::Empty, dates), Err(Error::InvalidValue));
    }
    let array = ValueNode::Array(ArrayNode {
        items: vec![integer(IntegerRepr::Dec, "1"), ValueNode::Invalid(span())],
        span: span(),
    });
    assert_eq!(resolve(&array), Err(Error::InvalidValue));
}

#[test]
fn arrays_resolve_in_order_and_fail_with_the_first_error() {
    let array = ValueNode::Array(ArrayNode {
        items: vec![integer(IntegerRepr::Dec, "1"), integer(IntegerRepr::Hex, "0x10")],
        span: span(),
    });
    assert_eq!(resolve(&array), Ok(Value::Array(vec![Value::Integer(1), Value::Integer(16)])));
    let failing = ValueNode::Array(ArrayNode {
        items: vec![
            integer(IntegerRepr::Dec, "1"),
            integer(IntegerRepr::Dec, "x"),
            ValueNode::Invalid(span()),
        ],
        span: span(),
    });
    assert_eq!(resolve(&failing), Err(Error::Other(Cause::ParseInt)));
    let empty = ValueNode::Array(ArrayNode { items: vec![], span: span() });
    assert_eq!(resolve(&empty), Ok(Value::Array(vec![])));
}

#[test]
fn tables_keep_the_order_of_their_entries() {
    let table = TableNode {
        entries: vec![
            EntryNode { key: key("zebra"), value: integer(IntegerRepr::Dec, "1") },
            EntryNode { key: key("\"a\\tb\""), value: integer(IntegerRepr::Dec, "2") },
            EntryNode { key: key("'m'"), value: integer(IntegerRepr::Dec, "3") },
        ],
        span: span(),
    };
    let value = Value::try_from_table(&table, DateSupport::Text).unwrap();
    let map = value.as_map().unwrap();
    assert_eq!(map.len(), 3);
    assert_eq!(map.get_index(0), Some((&"zebra".to_string(), &Value::Integer(1))));
    assert_eq!(map.get_index(1), Some((&"a\tb".to_string(), &Value::Integer(2))));
    assert_eq!(map.get_index(2), Some((&"m".to_string(), &Value::Integer(3))));
    assert_eq!(map.get_index(3), None);
    assert_eq!(map.get("m"), Some(&Value::Integer(3)));
    assert_eq!(map.get("n"), None);

    let root = RootNode { entries: table.entries, span: span() };
    let from_root = Value::try_from_root(&root, DateSupport::Text).unwrap();
    assert_eq!(from_root, value);
    assert_eq!(Value::try_from_node(&Node::Root(root), DateSupport::Text).unwrap(), value);
}

#[test]
fn a_table_inserts_and_replaces() {
    let mut table = Table::new();
    assert_eq!(table.len(), 0);
    table.insert("a".to_string(), Value::Integer(1));
    table.insert("b".to_string(), Value::Integer(2));
    table.insert("a".to_string(), Value::Integer(3));
    assert_eq!(table.len(), 2);
    assert_eq!(table.get_index(0), Some((&"a".to_string(), &Value::Integer(3))));
    assert_eq!(table.get_index(1), Some((&"b".to_string(), &Value::Integer(2))));
    assert_eq!(table.get("a"), Some(&Value::Integer(3)));
}

#[test]
fn a_key_that_cannot_be_unescaped_fails_the_table() {
    let table = TableNode {
        entries: vec![
            EntryNode { key: key("ok"), value: integer(IntegerRepr::Dec, "1") },
            EntryNode { key: key("\"a\\qb\""), value: ValueNode::Invalid(span()) },
        ],
        span: span(),
    };
    assert_eq!(
        Value::try_from_table(&table, DateSupport::Text),
        Err(Error::Other(Cause::Unescape(UnescapeError)))
    );
    let value_fails = TableNode {
        entries: vec![
            EntryNode { key: key("bad"), value: ValueNode::Invalid(span()) },
            EntryNode { key: key("\"a\\qb\""), value: integer(IntegerRepr::Dec, "1") },
        ],
        span: span(),
    };
    assert_eq!(Value::try_from_table(&value_fails, DateSupport::Text), Err(Error::InvalidValue));
}

#[test]
fn escapes_are_replaced() {
    assert_eq!(unescape("plain"), Ok("plain".to_string()));
    assert_eq!(unescape(""), Ok(String::new()));
    assert_eq!(
        unescape("\\b\\t\\n\\f\\r\\\"\\\\"),
        Ok("\u{8}\t\n\u{c}\r\"\\".to_string())
    );
    assert_eq!(unescape("a\\u0041b"), Ok("aAb".to_string()));
    assert_eq!(unescape("\\u00e9"), Ok("é".to_string()));
    assert_eq!(unescape("\\U0001F600"), Ok("\u{1F600}".to_string()));
    assert_eq!(unescape("\\"), Err(UnescapeError));
    assert_eq!(unescape("\\q"), Err(UnescapeError));
    assert_eq!(unescape("\\u12"), Err(UnescapeError));
    assert_eq!(unescape("\\u12G4"), Err(UnescapeError));
    assert_eq!(unescape("\\uD800"), Err(UnescapeError));
    assert_eq!(unescape("\\U00110000"), Err(UnescapeError));
    assert_eq!(unescape("\\U0001F60"), Err(UnescapeError));
}

fn offset(y: i32, mo: u8, d: u8, h: u8, mi: u8, s: u8, n: u32, off: i32) -> OffsetDateTime {
    OffsetDateTime { date_time: local(y, mo, d, h, mi, s, n), offset_seconds: off }
}

fn local(y: i32, mo: u8, d: u8, h: u8, mi: u8, s: u8, n: u32) -> LocalDateTime {
    LocalDateTime {
        date: LocalDate { year: y, month: mo, day: d },
        time: LocalTime { hour: h, minute: mi, second: s, nanosecond: n },
    }
}

#[test]
fn dates_are_read_in_a_fixed_order() {
    for support in [DateSupport::Chrono, DateSupport::Time] {
        assert_eq!(
            parse_date(support, "1979-05-27T07:32:01Z"),
            Some(Date::OffsetDateTime(offset(1979, 5, 27, 7, 32, 1, 0, 0)))
        );
        assert_eq!(
            parse_date(support, "1979-05-27T00:32:00-07:00"),
            Some(Date::OffsetDateTime(offset(1979, 5, 27, 0, 32, 0, 0, -7 * 3600)))
        );
        assert_eq!(
            parse_date(support, "1979-05-27T00:32:00.5+01:30"),
            Some(Date::OffsetDateTime(offset(1979, 5, 27, 0, 32, 0, 500_000_000, 5400)))
        );
        assert_eq!(
            parse_date(support, "1979-05-27T07:32:01"),
            Some(Date::LocalDateTime(local(1979, 5, 27, 7, 32, 1, 0)))
        );
        assert_eq!(
            parse_date(support, "07:32:01"),
            Some(Date::LocalTime(LocalTime { hour: 7, minute: 32, second: 1, nanosecond: 0 }))
        );
        assert_eq!(
            parse_date(support, "1979-05-27"),
            Some(Date::LocalDate(LocalDate { year: 1979, month: 5, day: 27 }))
        );
        assert_eq!(parse_date(support, "not a date"), None);
        assert_eq!(parse_date(support, "1979-13-27"), None);
        assert_eq!(parse_date(support, ""), None);
    }
    assert_eq!(parse_date(DateSupport::Text, "1979-05-27"), None);
}

#[test]
fn the_first_reading_wins() {
    let o = offset(1, 1, 1, 0, 0, 0, 0, 0);
    let l = local(2, 2, 2, 0, 0, 0, 0);
    assert_eq!(select_date(Some(o), Some(l), Some(l.time), Some(l.date)), Some(Date::OffsetDateTime(o)));
    assert_eq!(select_date(None, Some(l), Some(l.time), Some(l.date)), Some(Date::LocalDateTime(l)));
    assert_eq!(select_date(None, None, Some(l.time), Some(l.date)), Some(Date::LocalTime(l.time)));
    assert_eq!(select_date(None, None, None, Some(l.date)), Some(Date::LocalDate(l.date)));
    assert_eq!(select_date(None, None, None, None), None);
}

#[test]
fn date_nodes_resolve_with_each_library() {
    let expected = Date::OffsetDateTime(offset(1979, 5, 27, 7, 32, 0, 0, 0));
    for support in [DateSupport::Chrono, DateSupport::Time] {
        assert_eq!(
            Value::try_from_value(&date("1979-05-27 07:32:00Z"), support),
            Ok(Value::Date(expected))
        );
        assert_eq!(
            Value::try_from_value(&date("1979-05-27t07:32:00z"), support),
            Ok(Value::Date(expected))
        );
        assert_eq!(
            Value::try_from_value(&date("1979 05"), support),
            Err(Error::Other(Cause::InvalidDate(InvalidDateError::new("1979T05".to_string()))))
        );
    }
    assert_eq!(
        Value::try_from_value(&date("1979-05-27 07:32:00Z"), DateSupport::Text),
        Ok(Value::String("1979-05-27T07:32:00Z".to_string()))
    );
    assert_eq!(
        Value::try_from_value(&date("whatever it is"), DateSupport::Text),
        Ok(Value::String("whaTeverTiTTis".to_string()))
    );
}

#[test]
fn dates_are_printed_by_their_library() {
    let o = Date::OffsetDateTime(offset(1979, 5, 27, 7, 32, 1, 0, -7 * 3600));
    let l = Date::LocalDateTime(local(1979, 5, 27, 7, 32, 1, 0));
    let d = Date::LocalDate(LocalDate { year: 1979, month: 5, day: 27 });
    let t = Date::LocalTime(LocalTime { hour: 7, minute: 32, second: 1, nanosecond: 0 });
    assert_eq!(print_date(DateSupport::Chrono, &o), Some("1979-05-27T07:32:01-07:00".to_string()));
    assert_eq!(print_date(DateSupport::Chrono, &l), Some("1979-05-27 07:32:01".to_string()));
    assert_eq!(print_date(DateSupport::Chrono, &d), Some("1979-05-27".to_string()));
    assert_eq!(print_date(DateSupport::Chrono, &t), Some("07:32:01".to_string()));
    assert_eq!(print_date(DateSupport::Time, &o), Some("1979-05-27T07:32:01-07:00".to_string()));
    assert_eq!(print_date(DateSupport::Time, &l), Some("1979-05-27 7:32:01".to_string()));
    assert_eq!(print_date(DateSupport::Time, &d), Some("1979-05-27".to_string()));
    assert_eq!(print_date(DateSupport::Time, &t), Some("7:32:01".to_string()));
    assert_eq!(print_date(DateSupport::Text, &d), None);

    let no_date = Date::LocalDate(LocalDate { year: 1979, month: 13, day: 27 });
    assert_eq!(print_date(DateSupport::Chrono, &no_date), None);
    assert_eq!(print_date(DateSupport::Time, &no_date), None);
    let far = Date::OffsetDateTime(offset(10000, 1, 1, 0, 0, 0, 0, 0));
    assert_eq!(print_date(DateSupport::Time, &far), None);
}

#[test]
fn getters_pick_their_own_kind() {
    assert_eq!(Value::Bool(true).as_bool(), Some(&true));
    assert_eq!(Value::Integer(1).as_bool(), None);
    assert_eq!(Value::Bool(true).into_bool(), Some(true));
    assert_eq!(Value::UnsizedInteger(7).as_u64(), Some(&7));
    assert_eq!(Value::Integer(7).as_u64(), None);
    assert_eq!(Value::UnsizedInteger(7).into_u64(), Some(7));
    assert_eq!(Value::Integer(-7).as_i64(), Some(&-7));
    assert_eq!(Value::UnsizedInteger(7).as_i64(), None);
    assert_eq!(Value::Integer(-7).into_i64(), Some(-7));
    assert_eq!(Value::Float("1.5".to_string()).as_float(), Some("1.5"));
    assert_eq!(Value::String("1.5".to_string()).as_float(), None);
    assert_eq!(Value::Float("1.5".to_string()).into_float(), Some("1.5".to_string()));
    let d = Date::LocalDate(LocalDate { year: 1979, month: 5, day: 27 });
    assert_eq!(Value::Date(d).as_date(), Some(&d));
    assert_eq!(Value::Date(d).into_date(), Some(d));
    assert_eq!(Value::Bool(true).into_date(), None);
    assert_eq!(Value::String("s".to_string()).as_str(), Some("s"));
    assert_eq!(Value::Float("s".to_string()).as_str(), None);
    assert_eq!(Value::String("s".to_string()).into_string(), Some("s".to_string()));
    assert_eq!(Value::Array(vec![Value::Bool(true)]).as_array(), Some(&vec![Value::Bool(true)]));
    assert_eq!(Value::Array(vec![]).into_array(), Some(vec![]));
    assert_eq!(Value::Bool(true).as_array(), None);
    assert!(Value::Table(Table::new()).as_map().is_some());
    assert!(Value::Table(Table::new()).into_map().is_some());
    assert!(Value::Array(vec![]).as_map().is_none());
}

#[test]
fn errors_describe_themselves() {
    assert_eq!(Error::InvalidValue.message(), "invalid value");
    assert_eq!(
        Error::Other(Cause::Unescape(UnescapeError)).message(),
        "the key contains invalid escape sequence"
    );
    assert_eq!(
        Error::Other(Cause::InvalidDate(InvalidDateError::new("x".to_string()))).message(),
        "invalid date format: \"x\""
    );
    assert_eq!(InvalidDateError::new("x".to_string()).date(), "x");
    assert_eq!(
        Error::Other(Cause::ParseBool).message(),
        "provided string was not `true` or `false`"
    );
    assert_eq!(Error::Other(Cause::ParseFloat).message(), "invalid float literal");
    assert_eq!(Error::Other(Cause::ParseInt).message(), "invalid integer");
}

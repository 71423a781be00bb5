use taplo::allowed_chars::{
    check, comment, multi_line_string, multi_line_string_literal, string, string_literal, TextKind,
};
use taplo::coords::{Mapper, Position, Range};
use taplo::span::{join_ranges, Span};
use taplo::syntax::{SyntaxElement, SyntaxExt, SyntaxKind, SyntaxNode, SyntaxToken};
use taplo::text::{chars_of, contains_char, occurs_once, string_of, StrExt};

#[test]
fn control_characters_are_found_by_index() {
    assert_eq!(comment("# fine\ttoo"), Ok(()));
    assert_eq!(comment("a\u{0}b\u{7f}c\u{85}"), Err(vec![1, 3, 5]));
    assert_eq!(comment("é\n"), Err(vec![1]));
    assert_eq!(string("a\tb"), Ok(()));
    assert_eq!(string("a\nb\rc\u{8}\u{7f}"), Err(vec![1, 3, 5, 6]));
    assert_eq!(string("a\u{85}b"), Ok(()));
    assert_eq!(multi_line_string("a\nb\r\nc\t"), Ok(()));
    assert_eq!(multi_line_string("a\u{b}b\u{1f}"), Err(vec![1, 3]));
    assert_eq!(multi_line_string("\u{85}"), Ok(()));
    assert_eq!(string_literal("a\tb"), Ok(()));
    assert_eq!(string_literal("a\nb\u{9f}"), Err(vec![1, 3]));
    assert_eq!(multi_line_string_literal("a\nb\r\nc\t"), Ok(()));
    assert_eq!(multi_line_string_literal("\u{1}a\u{80}"), Err(vec![0, 2]));
    assert_eq!(check("", TextKind::Comment), Ok(()));
}

#[test]
fn the_checks_agree_with_a_direct_reading_of_the_rules() {
    let mut all = String::new();
    for code in 0u32..0x120 {
        all.push(char::from_u32(code).unwrap());
    }
    let expect = |rule: &dyn Fn(char) -> bool| -> Result<(), Vec<usize>> {
        let bad: Vec<usize> =
            all.chars().enumerate().filter(|(_, c)| rule(*c)).map(|(i, _)| i).collect();
        if bad.is_empty() {
            Ok(())
        } else {
            Err(bad)
        }
    };
    let ascii = |c: char| {
        (c >= '\u{0}' && c <= '\u{8}') || (c >= '\u{a}' && c <= '\u{1f}') || c == '\u{7f}'
    };
    assert_eq!(comment(&all), expect(&|c| c != '\t' && c.is_control()));
    assert_eq!(string(&all), expect(&|c| c != '\t' && ascii(c)));
    assert_eq!(
        multi_line_string(&all),
        expect(&|c| c != '\t' && c != '\n' && c != '\r' && ascii(c))
    );
    assert_eq!(string_literal(&all), expect(&|c| c != '\t' && c.is_control()));
    assert_eq!(
        multi_line_string_literal(&all),
        expect(&|c| c != '\t' && c != '\n' && c != '\r' && c.is_control())
    );
}

#[test]
fn quotes_are_stripped() {
    assert_eq!("\"abc\"".strip_quotes(), "abc");
    assert_eq!("'abc'".strip_quotes(), "abc");
    assert_eq!("abc".strip_quotes(), "abc");
    assert_eq!("\"\"".strip_quotes(), "");
    assert_eq!("\"é\"".strip_quotes(), "é");
    assert_eq!("".strip_quotes(), "");
    assert_eq!("\"".strip_quotes(), "\"");
    assert_eq!("a\"".strip_quotes(), "a\"");
}

#[test]
fn texts_are_taken_apart_and_put_together() {
    assert_eq!(chars_of("aé\n"), vec!['a', 'é', '\n']);
    assert_eq!(string_of(&vec!['a', 'é', '\n']), "aé\n");
    assert_eq!(string_of(&vec![]), "");
    assert!(contains_char("a\nb", '\n'));
    assert!(!contains_char("ab", '\n'));
    assert!(occurs_once("a\nb", '\n'));
    assert!(!occurs_once("\n\n", '\n'));
    assert!(!occurs_once("", '\n'));
}

#[test]
fn spans_cover_and_contain() {
    let a = Span::new(2, 5);
    let b = Span::new(4, 9);
    assert_eq!(a.start(), 2);
    assert_eq!(a.end(), 5);
    assert_eq!(a.cover(b), Span { start: 2, end: 9 });
    assert_eq!(b.cover(a), Span { start: 2, end: 9 });
    assert!(a.contains(2));
    assert!(a.contains(4));
    assert!(!a.contains(5));
    assert!(a.contains_inclusive(5));
    assert!(!a.contains_inclusive(6));
    assert!(!a.contains_inclusive(1));
    assert_eq!(a.last_offset(), 4);
    assert_eq!(Span::new(0, 0).last_offset(), 0);
    assert!(Span::new(3, 4).within(a));
    assert!(!b.within(a));
    assert_eq!(join_ranges(&vec![b]), b);
    assert_eq!(
        join_ranges(&vec![Span::new(5, 6), Span::new(1, 2), Span::new(3, 9)]),
        Span { start: 1, end: 9 }
    );
}

#[test]
fn the_mapper_looks_offsets_up() {
    let p = |line, character| Position { line, character };
    let mapper = Mapper::new(vec![p(0, 0), p(0, 1), p(1, 0), p(1, 1)]);
    assert_eq!(mapper.len(), 4);
    assert_eq!(mapper.position(0), Some(p(0, 0)));
    assert_eq!(mapper.position(2), Some(p(1, 0)));
    assert_eq!(mapper.position(4), None);
    assert_eq!(mapper.locate(3), p(1, 1));
    assert_eq!(mapper.range(Span::new(1, 3)), Some(Range { start: p(0, 1), end: p(1, 1) }));
    assert_eq!(mapper.range(Span::new(1, 4)), None);
    assert_eq!(mapper.range(Span { start: 9, end: 1 }), None);
    assert!(mapper.is_covering(Span::new(0, 3)));
    assert!(!mapper.is_covering(Span::new(0, 4)));
    assert!(!mapper.is_covering(Span { start: 2, end: 1 }));
}

fn token(kind: SyntaxKind, start: u32, text: &str) -> SyntaxElement {
    SyntaxElement::Token(SyntaxToken {
        kind,
        span: Span { start, end: start + text.len() as u32 },
        text: text.to_string(),
    })
}

fn node(kind: SyntaxKind, start: u32, end: u32, children: Vec<SyntaxElement>) -> SyntaxElement {
    SyntaxElement::Node(SyntaxNode { kind, span: Span { start, end }, children })
}

/// `a = [1]` then a newline then `b = 2`.
fn tree() -> SyntaxElement {
    let array = node(
        SyntaxKind::Array,
        4,
        7,
        vec![
            token(SyntaxKind::BracketStart, 4, "["),
            token(SyntaxKind::Integer, 5, "1"),
            token(SyntaxKind::BracketEnd, 6, "]"),
        ],
    );
    let first = node(
        SyntaxKind::Entry,
        0,
        7,
        vec![
            node(SyntaxKind::Key, 0, 1, vec![token(SyntaxKind::Ident, 0, "a")]),
            token(SyntaxKind::Whitespace, 1, " "),
            token(SyntaxKind::Equals, 2, "="),
            token(SyntaxKind::Whitespace, 3, " "),
            node(SyntaxKind::Value, 4, 7, vec![array]),
        ],
    );
    let second = node(
        SyntaxKind::Entry,
        8,
        13,
        vec![
            node(SyntaxKind::Key, 8, 9, vec![token(SyntaxKind::Ident, 8, "b")]),
            token(SyntaxKind::Whitespace, 9, " "),
            token(SyntaxKind::Equals, 10, "="),
            token(SyntaxKind::Whitespace, 11, " "),
            node(SyntaxKind::Value, 12, 13, vec![token(SyntaxKind::Integer, 12, "2")]),
        ],
    );
    node(SyntaxKind::Root, 0, 13, vec![first, token(SyntaxKind::Newline, 7, "\n"), second])
}

fn kind_of(n: Option<&SyntaxNode>) -> Option<(SyntaxKind, u32, u32)> {
    n.map(|n| (n.kind, n.span.start, n.span.end))
}

#[test]
fn nodes_are_found_by_offset() {
    let root = tree();
    assert!(root.is_well_formed());
    assert_eq!(kind_of(root.find_node(5, false)), Some((SyntaxKind::Entry, 0, 7)));
    assert_eq!(kind_of(root.find_node_deep(5, false)), Some((SyntaxKind::Array, 4, 7)));
    assert_eq!(kind_of(root.find_node(0, false)), Some((SyntaxKind::Entry, 0, 7)));
    assert_eq!(kind_of(root.find_node_deep(0, false)), Some((SyntaxKind::Key, 0, 1)));
    assert_eq!(kind_of(root.find_node(7, false)), None);
    assert_eq!(kind_of(root.find_node_deep(7, false)), None);
    assert_eq!(kind_of(root.find_node(7, true)), Some((SyntaxKind::Entry, 0, 7)));
    assert_eq!(kind_of(root.find_node_deep(7, true)), Some((SyntaxKind::Array, 4, 7)));
    assert_eq!(kind_of(root.find_node(12, false)), Some((SyntaxKind::Entry, 8, 13)));
    assert_eq!(kind_of(root.find_node_deep(12, false)), Some((SyntaxKind::Value, 12, 13)));
    assert_eq!(kind_of(root.find_node(13, false)), None);
    assert_eq!(kind_of(root.find_node(99, true)), None);
    let leaf = token(SyntaxKind::Ident, 0, "a");
    assert_eq!(kind_of(leaf.find_node(0, true)), None);
    assert_eq!(kind_of(leaf.find_node_deep(0, true)), None);
}

#[test]
fn elements_are_found_by_kind() {
    let root = tree();
    assert_eq!(root.find(SyntaxKind::Root).map(|e| e.text_range()), Some(Span { start: 0, end: 13 }));
    assert_eq!(root.find(SyntaxKind::Integer).map(|e| e.text_range()), Some(Span { start: 5, end: 6 }));
    assert_eq!(root.find(SyntaxKind::Newline).map(|e| e.text_range()), Some(Span { start: 7, end: 8 }));
    assert_eq!(root.find(SyntaxKind::Key).map(|e| e.text_range()), Some(Span { start: 0, end: 1 }));
    assert!(root.find(SyntaxKind::Comment).is_none());
    assert!(root.contains_kind(SyntaxKind::Array));
    assert!(!root.contains_kind(SyntaxKind::Comment));
    if let SyntaxElement::Node(n) = &root {
        assert_eq!(n.text_string(), "a = [1]\nb = 2");
        assert_eq!(n.first_child().map(|c| c.kind), Some(SyntaxKind::Entry));
    }
    assert!(SyntaxKind::Array.is_composite());
    assert!(!SyntaxKind::Comment.is_composite());
    assert!(SyntaxKind::TableArrayHeader.is_header());
    assert!(!SyntaxKind::Key.is_header());
}

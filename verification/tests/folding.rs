use taplo::coords::{Mapper, Position};
use taplo::folding::{
    create_folding_ranges, try_create_folding_ranges, FoldingRange, FoldingRangeKind,
};
use taplo::span::Span;
use taplo::syntax::{SyntaxElement, SyntaxKind, SyntaxNode, SyntaxToken};

fn mapper_for(text: &str) -> Mapper {
    let mut positions = Vec::new();
    let mut line = 0u32;
    let mut character = 0u32;
    for b in text.bytes() {
        positions.push(Position { line, character });
        if b == b'\n' {
            line += 1;
            character = 0;
        } else {
            character += 1;
        }
    }
    positions.push(Position { line, character });
    Mapper::new(positions)
}

struct Builder {
    text: String,
}

impl Builder {
    fn new() -> Builder {
        Builder { text: String::new() }
    }

    fn token(&mut self, kind: SyntaxKind, text: &str) -> SyntaxElement {
        let start = self.text.len() as u32;
        self.text.push_str(text);
        let end = self.text.len() as u32;
        SyntaxElement::Token(SyntaxToken { kind, span: Span { start, end }, text: text.to_string() })
    }

    fn newline(&mut self) -> SyntaxElement {
        self.token(SyntaxKind::Newline, "\n")
    }

    fn comment(&mut self, text: &str) -> SyntaxElement {
        self.token(SyntaxKind::Comment, text)
    }

    fn key(&mut self, text: &str) -> SyntaxElement {
        let ident = self.token(SyntaxKind::Ident, text);
        node(SyntaxKind::Key, vec![ident])
    }

    fn header(&mut self, key: &str) -> SyntaxElement {
        let open = self.token(SyntaxKind::BracketStart, "[");
        let key = self.key(key);
        let close = self.token(SyntaxKind::BracketEnd, "]");
        node(SyntaxKind::TableHeader, vec![open, key, close])
    }


    fn integer_entry(&mut self, key: &str, value: &str) -> SyntaxElement {
        let key = self.key(key);
        let ws1 = self.token(SyntaxKind::Whitespace, " ");
        let eq = self.token(SyntaxKind::Equals, "=");
        let ws2 = self.token(SyntaxKind::Whitespace, " ");
        let number = self.token(SyntaxKind::Integer, value);
        let value = node(SyntaxKind::Value, vec![number]);
        node(SyntaxKind::Entry, vec![key, ws1, eq, ws2, value])
    }

    fn entry_start(&mut self, key: &str) -> Vec<SyntaxElement> {
        let key = self.key(key);
        let ws1 = self.token(SyntaxKind::Whitespace, " ");
        let eq = self.token(SyntaxKind::Equals, "=");
        let ws2 = self.token(SyntaxKind::Whitespace, " ");
        vec![key, ws1, eq, ws2]
    }

    fn finish(self, children: Vec<SyntaxElement>) -> (SyntaxNode, Mapper) {
        let mapper = mapper_for(&self.text);
        let root = SyntaxNode {
            kind: SyntaxKind::Root,
            span: Span { start: 0, end: self.text.len() as u32 },
            children,
        };
        (root, mapper)
    }
}

fn node(kind: SyntaxKind, children: Vec<SyntaxElement>) -> SyntaxElement {
    let start = children.first().map(|c| c.text_range().start).unwrap_or(0);
    let end = children.last().map(|c| c.text_range().end).unwrap_or(start);
    SyntaxElement::Node(SyntaxNode { kind, span: Span { start, end }, children })
}

fn fold(root: &SyntaxNode, mapper: &Mapper) -> Vec<FoldingRange> {
    assert!(root.is_well_formed());
    assert!(mapper.is_covering(root.span));
    create_folding_ranges(root, mapper)
}

fn lines(start_line: u32, end_line: u32, kind: FoldingRangeKind) -> FoldingRange {
    FoldingRange { start_line, start_character: None, end_line, end_character: None, kind }
}

#[test]
fn leading_comment_block_folds_as_one_comment() {
    let mut b = Builder::new();
    let children = vec![
        b.comment("# one"),
        b.newline(),
        b.comment("# two"),
        b.newline(),
        b.comment("# three"),
        b.newline(),
        b.integer_entry("key", "1"),
        b.newline(),
    ];
    let (root, mapper) = b.finish(children);
    assert_eq!(fold(&root, &mapper), vec![lines(0, 2, FoldingRangeKind::Comment)]);
}

#[test]
fn nested_headers_close_before_an_unrelated_header() {
    let mut b = Builder::new();
    let children = vec![
        b.header("a"),
        b.newline(),
        b.integer_entry("x", "1"),
        b.newline(),
        b.header("a.b"),
        b.newline(),
        b.integer_entry("y", "2"),
        b.newline(),
        b.header("c"),
        b.newline(),
        b.integer_entry("z", "3"),
        b.newline(),
    ];
    let (root, mapper) = b.finish(children);
    assert_eq!(
        fold(&root, &mapper),
        vec![
            lines(0, 3, FoldingRangeKind::Region),
            lines(2, 3, FoldingRangeKind::Region),
            lines(4, 5, FoldingRangeKind::Region),
        ]
    );
}

#[test]
fn a_header_with_the_same_key_closes_the_open_one() {
    let mut b = Builder::new();
    let children = vec![
        b.header("a"),
        b.newline(),
        b.integer_entry("x", "1"),
        b.newline(),
        b.header("a"),
        b.newline(),
        b.integer_entry("y", "2"),
        b.newline(),
    ];
    let (root, mapper) = b.finish(children);
    assert_eq!(
        fold(&root, &mapper),
        vec![lines(0, 1, FoldingRangeKind::Region), lines(2, 3, FoldingRangeKind::Region)]
    );
}

#[test]
fn headers_without_content_between_them_stay_open() {
    let mut b = Builder::new();
    let children = vec![b.header("a"), b.header("b"), b.newline(), b.integer_entry("x", "1")];
    let (root, mapper) = b.finish(children);
    assert_eq!(
        fold(&root, &mapper),
        vec![lines(0, 1, FoldingRangeKind::Region), lines(0, 1, FoldingRangeKind::Region)]
    );
}

#[test]
fn a_header_at_the_end_has_no_fold() {
    let mut b = Builder::new();
    let children = vec![b.integer_entry("x", "1"), b.newline(), b.header("a")];
    let (root, mapper) = b.finish(children);
    assert_eq!(fold(&root, &mapper), vec![]);
}

#[test]
fn an_empty_document_has_no_folds() {
    let b = Builder::new();
    let (root, mapper) = b.finish(vec![]);
    assert_eq!(fold(&root, &mapper), vec![]);
}

#[test]
fn a_blank_line_ends_a_run_of_comments() {
    let mut b = Builder::new();
    let children = vec![
        b.comment("# one"),
        b.newline(),
        b.comment("# two"),
        b.token(SyntaxKind::Newline, "\n\n"),
        b.comment("# three"),
        b.newline(),
    ];
    let (root, mapper) = b.finish(children);
    assert_eq!(
        fold(&root, &mapper),
        vec![lines(0, 1, FoldingRangeKind::Comment), lines(3, 3, FoldingRangeKind::Comment)]
    );
}

#[test]
fn whitespace_does_not_end_a_run_of_comments() {
    let mut b = Builder::new();
    let children = vec![
        b.comment("# one"),
        b.newline(),
        b.token(SyntaxKind::Whitespace, "  "),
        b.comment("# two"),
    ];
    let (root, mapper) = b.finish(children);
    assert_eq!(fold(&root, &mapper), vec![lines(0, 1, FoldingRangeKind::Comment)]);
}

#[test]
fn a_single_comment_folds_onto_itself() {
    let mut b = Builder::new();
    let children = vec![b.comment("# one"), b.newline(), b.integer_entry("x", "1")];
    let (root, mapper) = b.finish(children);
    assert_eq!(fold(&root, &mapper), vec![lines(0, 0, FoldingRangeKind::Comment)]);
}

#[test]
fn an_array_over_several_lines_folds_by_character() {
    let mut b = Builder::new();
    let mut entry = b.entry_start("a");
    let array = vec![
        b.token(SyntaxKind::BracketStart, "["),
        b.newline(),
        b.token(SyntaxKind::Integer, "1"),
        b.token(SyntaxKind::Comma, ","),
        b.newline(),
        b.token(SyntaxKind::BracketEnd, "]"),
    ];
    let array = node(SyntaxKind::Array, array);
    entry.push(node(SyntaxKind::Value, vec![array]));
    let children = vec![node(SyntaxKind::Entry, entry), b.newline()];
    let (root, mapper) = b.finish(children);
    assert_eq!(
        fold(&root, &mapper),
        vec![FoldingRange {
            start_line: 0,
            start_character: Some(4),
            end_line: 2,
            end_character: Some(0),
            kind: FoldingRangeKind::Region,
        }]
    );
}

#[test]
fn an_array_on_one_line_does_not_fold() {
    let mut b = Builder::new();
    let mut entry = b.entry_start("a");
    let array = vec![
        b.token(SyntaxKind::BracketStart, "["),
        b.token(SyntaxKind::Integer, "1"),
        b.token(SyntaxKind::BracketEnd, "]"),
    ];
    entry.push(node(SyntaxKind::Value, vec![node(SyntaxKind::Array, array)]));
    let children = vec![node(SyntaxKind::Entry, entry)];
    let (root, mapper) = b.finish(children);
    assert_eq!(fold(&root, &mapper), vec![]);
}

#[test]
fn a_string_over_several_lines_folds_by_character() {
    let mut b = Builder::new();
    let mut entry = b.entry_start("s");
    let string = b.token(SyntaxKind::MultiLineString, "\"\"\"\nabc\n\"\"\"");
    entry.push(node(SyntaxKind::Value, vec![string]));
    let mut other = b.entry_start("t");
    let one_line = b.token(SyntaxKind::MultiLineStringLiteral, "'''abc'''");
    other.push(node(SyntaxKind::Value, vec![one_line]));
    let children = vec![node(SyntaxKind::Entry, entry), b.newline(), node(SyntaxKind::Entry, other)];
    let (root, mapper) = b.finish(children);
    assert_eq!(
        fold(&root, &mapper),
        vec![FoldingRange {
            start_line: 0,
            start_character: Some(4),
            end_line: 2,
            end_character: Some(2),
            kind: FoldingRangeKind::Region,
        }]
    );
}

#[test]
fn a_comment_run_is_folded_before_the_folds_of_what_follows() {
    let mut b = Builder::new();
    let children = vec![
        b.header("a"),
        b.newline(),
        b.comment("# one"),
        b.newline(),
        b.comment("# two"),
        b.newline(),
        b.header("b"),
        b.newline(),
    ];
    let (root, mapper) = b.finish(children);
    assert_eq!(
        fold(&root, &mapper),
        vec![
            lines(0, 2, FoldingRangeKind::Region),
            lines(1, 2, FoldingRangeKind::Comment),
            lines(3, 3, FoldingRangeKind::Region),
        ]
    );
}

#[test]
fn well_formedness_is_decided() {
    let mut b = Builder::new();
    let open = b.token(SyntaxKind::BracketStart, "[");
    let close = b.token(SyntaxKind::BracketEnd, "]");
    let header_without_key = node(SyntaxKind::TableHeader, vec![open, close]);
    let (root, mapper) = b.finish(vec![header_without_key]);
    assert!(!root.is_well_formed());
    assert!(mapper.is_covering(root.span));

    let token_with_node_kind = SyntaxElement::Token(SyntaxToken {
        kind: SyntaxKind::Array,
        span: Span { start: 0, end: 1 },
        text: "x".to_string(),
    });
    assert!(!token_with_node_kind.is_well_formed());

    let outside = SyntaxNode {
        kind: SyntaxKind::Root,
        span: Span { start: 0, end: 1 },
        children: vec![SyntaxElement::Token(SyntaxToken {
            kind: SyntaxKind::Ident,
            span: Span { start: 0, end: 2 },
            text: "ab".to_string(),
        })],
    };
    assert!(!outside.is_well_formed());
    assert!(!mapper_for("").is_covering(Span { start: 0, end: 1 }));
}

#[test]
fn folding_is_refused_where_it_cannot_be_done() {
    let mut b = Builder::new();
    let children = vec![b.comment("# one"), b.newline(), b.integer_entry("x", "1")];
    let (root, mapper) = b.finish(children);
    assert_eq!(
        try_create_folding_ranges(&root, &mapper),
        Some(vec![lines(0, 0, FoldingRangeKind::Comment)])
    );
    assert_eq!(try_create_folding_ranges(&root, &mapper_for("# one")), None);
    let mut b = Builder::new();
    let open = b.token(SyntaxKind::BracketStart, "[");
    let (root, mapper) = b.finish(vec![node(SyntaxKind::TableHeader, vec![open])]);
    assert_eq!(try_create_folding_ranges(&root, &mapper), None);
}

//! Folding ranges: the regions of a document that an editor can collapse.
//!
//! The ranges come from one scan over the top-level elements of the syntax
//! tree. Table headers fold down to the last element that belongs to them,
//! runs of comments fold as a whole, and arrays and multi-line strings that
//! span several lines fold from their first to their last character.

use crate::coords::Mapper;
use crate::span::Span;
use crate::syntax::{SyntaxElement, SyntaxKind, SyntaxNode};
use crate::text::{chars_eq, chars_of, chars_start_with, contains_char, occurrences, occurs_once};
use vstd::prelude::*;

verus! {

#[derive(Clone, Copy, Debug, PartialEq, Eq, Structural)]
pub enum FoldingRangeKind {
    Comment,
    Region,
}

/// A collapsible region. The character fields are set for folds inside a line
/// and absent for folds of whole lines.
#[derive(Clone, Copy, Debug, PartialEq, Eq, Structural)]
pub struct FoldingRange {
    pub start_line: u32,
    pub start_character: Option<u32>,
    pub end_line: u32,
    pub end_character: Option<u32>,
    pub kind: FoldingRangeKind,
}

/// A header that is still open: its key and the span of the header itself.
pub type OpenHeader = (Seq<char>, Span);

/// What the scan remembers between two elements.
pub struct FoldState {
    /// The ranges found so far.
    pub ranges: Seq<FoldingRange>,
    /// The first and the last comment of the run of comments that is open.
    pub comment_run: Option<(Span, Span)>,
    /// Whether the element before continued a run of comments.
    pub was_comment: bool,
    /// The headers that are still open, oldest first.
    pub headers: Seq<OpenHeader>,
    /// The last element seen since the newest header that is neither a header nor whitespace.
    pub last_non_header: Option<Span>,
}

/// The fold of a table: from the line of its header to the line where `last` ends.
pub open spec fn region_fold(mapper: &Mapper, header: Span, last: Span) -> FoldingRange {
    FoldingRange {
        start_line: mapper.at(header.start).line,
        start_character: None,
        end_line: mapper.at(last.spec_last_offset()).line,
        end_character: None,
        kind: FoldingRangeKind::Region,
    }
}

/// The fold of a run of comments: from the line of the first to the line of the last.
pub open spec fn comment_fold(mapper: &Mapper, first: Span, last: Span) -> FoldingRange {
    FoldingRange {
        start_line: mapper.at(first.start).line,
        start_character: None,
        end_line: mapper.at(last.start).line,
        end_character: None,
        kind: FoldingRangeKind::Comment,
    }
}

/// The fold of an array or a string: from its first to its last character.
pub open spec fn inline_fold(mapper: &Mapper, span: Span) -> FoldingRange {
    FoldingRange {
        start_line: mapper.at(span.start).line,
        start_character: Some(mapper.at(span.start).character),
        end_line: mapper.at(span.spec_last_offset()).line,
        end_character: Some(mapper.at(span.spec_last_offset()).character),
        kind: FoldingRangeKind::Region,
    }
}

/// The key of a header: the text of its first child node.
pub open spec fn header_key(element: SyntaxElement) -> Seq<char> {
    match element {
        SyntaxElement::Node(n) => match n.spec_first_child() {
            Some(key) => key.text(),
            None => Seq::empty(),
        },
        SyntaxElement::Token(_) => Seq::empty(),
    }
}

/// A new header with key `key` closes an open header with key `open` unless
/// `open` is a proper prefix of `key`.
pub open spec fn closes(open: Seq<char>, key: Seq<char>) -> bool {
    open == key || !open.is_prefix_of(key)
}

/// Those of the first `n` open headers that a header with key `key` leaves open.
pub open spec fn kept_headers(headers: Seq<OpenHeader>, n: nat, key: Seq<char>) -> Seq<OpenHeader>
    decreases n,
{
    if n == 0 || n > headers.len() {
        Seq::empty()
    } else if closes(headers[n - 1].0, key) {
        kept_headers(headers, (n - 1) as nat, key)
    } else {
        kept_headers(headers, (n - 1) as nat, key).push(headers[n - 1])
    }
}

/// The folds of those of the first `n` open headers that a header with key `key` closes.
pub open spec fn closed_folds(
    mapper: &Mapper,
    headers: Seq<OpenHeader>,
    n: nat,
    key: Seq<char>,
    last: Span,
) -> Seq<FoldingRange>
    decreases n,
{
    if n == 0 || n > headers.len() {
        Seq::empty()
    } else if closes(headers[n - 1].0, key) {
        closed_folds(mapper, headers, (n - 1) as nat, key, last).push(
            region_fold(mapper, headers[n - 1].1, last),
        )
    } else {
        closed_folds(mapper, headers, (n - 1) as nat, key, last)
    }
}

/// The folds of the first `n` open headers, all closed at `last`.
pub open spec fn remaining_folds(mapper: &Mapper, headers: Seq<OpenHeader>, n: nat, last: Span) -> Seq<
    FoldingRange,
>
    decreases n,
{
    if n == 0 || n > headers.len() {
        Seq::empty()
    } else {
        remaining_folds(mapper, headers, (n - 1) as nat, last).push(
            region_fold(mapper, headers[n - 1].1, last),
        )
    }
}

/// The folds inside the first `n` children, in document order.
pub open spec fn children_folds(mapper: &Mapper, children: Vec<SyntaxElement>, n: nat) -> Seq<
    FoldingRange,
>
    decreases children, n,
{
    if n == 0 || n > children.len() {
        Seq::empty()
    } else {
        children_folds(mapper, children, (n - 1) as nat) + inner_folds(mapper, children[n - 1])
    }
}

/// The folds inside an element, the element itself included, in document order:
/// one for each array that holds a newline and one for each multi-line string
/// whose text holds a line break.
pub open spec fn inner_folds(mapper: &Mapper, element: SyntaxElement) -> Seq<FoldingRange>
    decreases element,
{
    match element {
        SyntaxElement::Token(t) => {
            if (t.kind == SyntaxKind::MultiLineString || t.kind
                == SyntaxKind::MultiLineStringLiteral) && t.text@.contains('\n') {
                seq![inline_fold(mapper, t.span)]
            } else {
                Seq::empty()
            }
        },
        SyntaxElement::Node(n) => {
            let own = if n.kind == SyntaxKind::Array && element.has_kind(SyntaxKind::Newline) {
                seq![inline_fold(mapper, n.span)]
            } else {
                Seq::empty()
            };
            own + children_folds(mapper, n.children, n.children.len() as nat)
        },
    }
}

/// The state after a header: the open headers that it closes are folded, if
/// anything but headers came since the newest of them, and the header is open.
pub open spec fn after_header(mapper: &Mapper, state: FoldState, element: SyntaxElement) -> FoldState {
    let key = header_key(element);
    let (ranges, headers) = match state.last_non_header {
        Some(last) => (
            state.ranges + closed_folds(mapper, state.headers, state.headers.len(), key, last),
            kept_headers(state.headers, state.headers.len(), key),
        ),
        None => (state.ranges, state.headers),
    };
    FoldState {
        ranges,
        comment_run: state.comment_run,
        was_comment: false,
        headers: headers.push((key, element.span())),
        last_non_header: None,
    }
}

/// The state after an element that is neither a header nor whitespace.
pub open spec fn after_content(mapper: &Mapper, state: FoldState, element: SyntaxElement) -> FoldState {
    match element {
        SyntaxElement::Node(_) => FoldState {
            ranges: state.ranges + inner_folds(mapper, element),
            comment_run: state.comment_run,
            was_comment: false,
            headers: state.headers,
            last_non_header: Some(element.span()),
        },
        SyntaxElement::Token(t) => FoldState {
            ranges: state.ranges,
            comment_run: if t.kind == SyntaxKind::Comment {
                match state.comment_run {
                    Some((first, _)) => Some((first, t.span)),
                    None => Some((t.span, t.span)),
                }
            } else {
                state.comment_run
            },
            was_comment: t.kind == SyntaxKind::Comment || (t.kind == SyntaxKind::Newline
                && state.was_comment && occurrences(t.text@, '\n') == 1),
            headers: state.headers,
            last_non_header: Some(element.span()),
        },
    }
}

/// The state after an element, before a finished run of comments is folded.
pub open spec fn after_element(mapper: &Mapper, state: FoldState, element: SyntaxElement) -> FoldState {
    if element.spec_kind().header() {
        after_header(mapper, state, element)
    } else if element.spec_kind() == SyntaxKind::Whitespace {
        state
    } else {
        after_content(mapper, state, element)
    }
}

/// Folds the open run of comments unless the last element continued it.
pub open spec fn flush_comments(mapper: &Mapper, state: FoldState) -> FoldState {
    match state.comment_run {
        Some((first, last)) if !state.was_comment => FoldState {
            ranges: state.ranges.push(comment_fold(mapper, first, last)),
            comment_run: None,
            was_comment: state.was_comment,
            headers: state.headers,
            last_non_header: state.last_non_header,
        },
        _ => state,
    }
}

/// One step of the scan.
pub open spec fn step(mapper: &Mapper, state: FoldState, element: SyntaxElement) -> FoldState {
    flush_comments(mapper, after_element(mapper, state, element))
}

/// The state before the first element.
pub open spec fn initial_state() -> FoldState {
    FoldState {
        ranges: Seq::empty(),
        comment_run: None,
        was_comment: false,
        headers: Seq::empty(),
        last_non_header: None,
    }
}

/// The state after the first `n` elements.
pub open spec fn scan(mapper: &Mapper, elements: Seq<SyntaxElement>, n: nat) -> FoldState
    decreases n,
{
    if n == 0 || n > elements.len() {
        initial_state()
    } else {
        step(mapper, scan(mapper, elements, (n - 1) as nat), elements[n - 1])
    }
}

/// The ranges at the end of the scan: those found on the way, then the folds of
/// the headers that are still open, if anything came after the newest of them,
/// then the fold of the run of comments that is still open.
pub open spec fn finish(mapper: &Mapper, state: FoldState) -> Seq<FoldingRange> {
    let headers = match state.last_non_header {
        Some(last) => remaining_folds(mapper, state.headers, state.headers.len(), last),
        None => Seq::empty(),
    };
    let comments = match state.comment_run {
        Some((first, last)) => seq![comment_fold(mapper, first, last)],
        None => Seq::empty(),
    };
    state.ranges + headers + comments
}

/// The folding ranges of a document, given the root of its syntax tree.
pub open spec fn folding_ranges(mapper: &Mapper, syntax: SyntaxNode) -> Seq<FoldingRange> {
    finish(mapper, scan(mapper, syntax.children@, syntax.children.len() as nat))
}

/// A fold of whole lines has no character fields.
pub open spec fn whole_lines(range: FoldingRange) -> bool {
    range.start_character is None && range.end_character is None
}

/// The form of a fold: a fold of comments covers whole lines, and a region
/// has either both character fields or none.
pub open spec fn well_shaped(range: FoldingRange) -> bool {
    if range.kind == FoldingRangeKind::Comment {
        whole_lines(range)
    } else {
        whole_lines(range) || (range.start_character is Some && range.end_character is Some)
    }
}

/// Every fold of the sequence has the form of a fold.
pub open spec fn all_well_shaped(ranges: Seq<FoldingRange>) -> bool {
    forall|i: int| 0 <= i < ranges.len() ==> well_shaped(#[trigger] ranges[i])
}

proof fn lemma_inner_folds_shaped(mapper: &Mapper, element: SyntaxElement)
    ensures
        all_well_shaped(inner_folds(mapper, element)),
    decreases element,
{
    match element {
        SyntaxElement::Token(_) => {},
        SyntaxElement::Node(n) => {
            lemma_children_folds_shaped(mapper, n.children, n.children.len() as nat);
        },
    }
}

proof fn lemma_children_folds_shaped(mapper: &Mapper, children: Vec<SyntaxElement>, n: nat)
    ensures
        all_well_shaped(children_folds(mapper, children, n)),
    decreases children, n,
{
    if n > 0 && n <= children.len() {
        lemma_children_folds_shaped(mapper, children, (n - 1) as nat);
        lemma_inner_folds_shaped(mapper, children[n - 1]);
    }
}

proof fn lemma_closed_folds_shaped(
    mapper: &Mapper,
    headers: Seq<OpenHeader>,
    n: nat,
    key: Seq<char>,
    last: Span,
)
    ensures
        all_well_shaped(closed_folds(mapper, headers, n, key, last)),
        all_well_shaped(remaining_folds(mapper, headers, n, last)),
    decreases n,
{
    if n > 0 && n <= headers.len() {
        lemma_closed_folds_shaped(mapper, headers, (n - 1) as nat, key, last);
    }
}

proof fn lemma_scan_shaped(mapper: &Mapper, elements: Seq<SyntaxElement>, n: nat)
    ensures
        all_well_shaped(scan(mapper, elements, n).ranges),
    decreases n,
{
    if n > 0 && n <= elements.len() {
        lemma_scan_shaped(mapper, elements, (n - 1) as nat);
        let before = scan(mapper, elements, (n - 1) as nat);
        let element = elements[n - 1];
        lemma_inner_folds_shaped(mapper, element);
        if before.last_non_header is Some {
            lemma_closed_folds_shaped(
                mapper,
                before.headers,
                before.headers.len(),
                header_key(element),
                before.last_non_header.unwrap(),
            );
        }
        assert(all_well_shaped(after_element(mapper, before, element).ranges));
    }
}

/// Folds of comments and of tables cover whole lines; only the folds of
/// arrays and strings carry characters, and then at both ends.
pub proof fn lemma_folds_are_well_shaped(mapper: &Mapper, syntax: SyntaxNode)
    ensures
        all_well_shaped(folding_ranges(mapper, syntax)),
{
    let state = scan(mapper, syntax.children@, syntax.children.len() as nat);
    lemma_scan_shaped(mapper, syntax.children@, syntax.children.len() as nat);
    if state.last_non_header is Some {
        lemma_closed_folds_shaped(
            mapper,
            state.headers,
            state.headers.len(),
            Seq::empty(),
            state.last_non_header.unwrap(),
        );
    }
}

/// Whether the mapper knows the positions of both ends of `span`.
pub open spec fn mapped(mapper: &Mapper, span: Span) -> bool {
    mapper.maps(span.start) && mapper.maps(span.end)
}

/// The scan's memory as the executable code holds it.
struct Scan {
    ranges: Vec<FoldingRange>,
    comment_run: Option<(Span, Span)>,
    was_comment: bool,
    headers: Vec<(Vec<char>, Span)>,
    last_non_header: Option<Span>,
}

/// The open headers with their keys as plain text.
spec fn headers_view(headers: Seq<(Vec<char>, Span)>) -> Seq<OpenHeader> {
    Seq::new(headers.len(), |i: int| (headers[i].0@, headers[i].1))
}

impl Scan {
    spec fn view(&self) -> FoldState {
        FoldState {
            ranges: self.ranges@,
            comment_run: self.comment_run,
            was_comment: self.was_comment,
            headers: headers_view(self.headers@),
            last_non_header: self.last_non_header,
        }
    }

    /// The mapper knows every span that the scan remembers.
    spec fn mapped(&self, mapper: &Mapper) -> bool {
        &&& self.comment_run matches Some((first, last)) ==> mapped(mapper, first) && mapped(
            mapper,
            last,
        )
        &&& self.last_non_header matches Some(last) ==> mapped(mapper, last)
        &&& forall|i: int| 0 <= i < self.headers.len() ==> mapped(mapper, (#[trigger] self.headers[i]).1)
    }
}

fn make_region_fold(mapper: &Mapper, header: Span, last: Span) -> (r: FoldingRange)
    requires
        mapped(mapper, header),
        mapped(mapper, last),
    ensures
        r == region_fold(mapper, header, last),
{
    FoldingRange {
        start_line: mapper.locate(header.start).line,
        start_character: None,
        end_line: mapper.locate(last.last_offset()).line,
        end_character: None,
        kind: FoldingRangeKind::Region,
    }
}

fn make_comment_fold(mapper: &Mapper, first: Span, last: Span) -> (r: FoldingRange)
    requires
        mapped(mapper, first),
        mapped(mapper, last),
    ensures
        r == comment_fold(mapper, first, last),
{
    FoldingRange {
        start_line: mapper.locate(first.start).line,
        start_character: None,
        end_line: mapper.locate(last.start).line,
        end_character: None,
        kind: FoldingRangeKind::Comment,
    }
}

fn make_inline_fold(mapper: &Mapper, span: Span) -> (r: FoldingRange)
    requires
        mapped(mapper, span),
    ensures
        r == inline_fold(mapper, span),
{
    let start = mapper.locate(span.start);
    let end = mapper.locate(span.last_offset());
    FoldingRange {
        start_line: start.line,
        start_character: Some(start.character),
        end_line: end.line,
        end_character: Some(end.character),
        kind: FoldingRangeKind::Region,
    }
}

/// Appends the folds inside `element` to `out`.
fn push_inner_folds(mapper: &Mapper, element: &SyntaxElement, out: &mut Vec<FoldingRange>)
    requires
        element.well_formed(),
        mapper.maps(element.span().end),
    ensures
        final(out)@ == old(out)@ + inner_folds(mapper, *element),
    decreases element,
{
    match element {
        SyntaxElement::Token(t) => {
            let multi_line = match t.kind {
                SyntaxKind::MultiLineString | SyntaxKind::MultiLineStringLiteral => true,
                _ => false,
            };
            if multi_line && contains_char(t.text.as_str(), '\n') {
                out.push(make_inline_fold(mapper, t.span));
                assert(out@ =~= old(out)@ + inner_folds(mapper, *element));
            } else {
                assert(out@ =~= old(out)@ + inner_folds(mapper, *element));
            }
        },
        SyntaxElement::Node(n) => {
            let is_array = match n.kind {
                SyntaxKind::Array => true,
                _ => false,
            };
            if is_array && n.contains_kind(SyntaxKind::Newline) {
                out.push(make_inline_fold(mapper, n.span));
            }
            let ghost own = out@;
            let mut i: usize = 0;
            while i < n.children.len()
                invariant
                    i <= n.children.len(),
                    element.well_formed(),
                    *element == SyntaxElement::Node(*n),
                    mapper.maps(n.span.end),
                    out@ == own + children_folds(mapper, n.children, i as nat),
                decreases n.children.len() - i,
            {
                let ghost before = out@;
                assert(n.children[i as int].well_formed());
                push_inner_folds(mapper, &n.children[i], out);
                assert(before + inner_folds(mapper, n.children[i as int]) =~= own + children_folds(
                    mapper,
                    n.children,
                    (i + 1) as nat,
                ));
                i += 1;
            }
            assert(out@ =~= old(out)@ + inner_folds(mapper, *element));
        },
    }
}

/// The key of a header as plain text.
fn key_of(element: &SyntaxElement) -> (key: Vec<char>)
    ensures
        key@ == header_key(*element),
{
    match element {
        SyntaxElement::Node(n) => match n.first_child() {
            Some(child) => {
                let text = child.text_string();
                chars_of(text.as_str())
            },
            None => Vec::new(),
        },
        SyntaxElement::Token(_) => Vec::new(),
    }
}

fn copy_chars(text: &Vec<char>) -> (r: Vec<char>)
    ensures
        r@ == text@,
{
    let mut r: Vec<char> = Vec::new();
    let mut i: usize = 0;
    while i < text.len()
        invariant
            i <= text.len(),
            r@ == text@.take(i as int),
        decreases text.len() - i,
    {
        r.push(text[i]);
        assert(text@.take(i + 1) =~= text@.take(i as int).push(text@[i as int]));
        i += 1;
    }
    assert(text@.take(text@.len() as int) =~= text@);
    r
}

/// Folds the open headers that a header with key `key` closes, appends the
/// folds to `ranges` and returns the headers that stay open.
fn close_headers(
    mapper: &Mapper,
    headers: &Vec<(Vec<char>, Span)>,
    key: &Vec<char>,
    last: Span,
    ranges: &mut Vec<FoldingRange>,
) -> (kept: Vec<(Vec<char>, Span)>)
    requires
        mapped(mapper, last),
        forall|i: int| 0 <= i < headers.len() ==> mapped(mapper, (#[trigger] headers[i]).1),
    ensures
        final(ranges)@ == old(ranges)@ + closed_folds(
            mapper,
            headers_view(headers@),
            headers.len() as nat,
            key@,
            last,
        ),
        headers_view(kept@) == kept_headers(headers_view(headers@), headers.len() as nat, key@),
        forall|i: int| 0 <= i < kept.len() ==> mapped(mapper, (#[trigger] kept[i]).1),
{
    let mut kept: Vec<(Vec<char>, Span)> = Vec::new();
    let ghost open = headers_view(headers@);
    let mut i: usize = 0;
    assert(headers_view(kept@) =~= kept_headers(open, 0, key@));
    assert(ranges@ =~= old(ranges)@ + closed_folds(mapper, open, 0, key@, last));
    while i < headers.len()
        invariant
            i <= headers.len(),
            open == headers_view(headers@),
            mapped(mapper, last),
            forall|j: int| 0 <= j < headers.len() ==> mapped(mapper, (#[trigger] headers[j]).1),
            forall|j: int| 0 <= j < kept.len() ==> mapped(mapper, (#[trigger] kept[j]).1),
            ranges@ == old(ranges)@ + closed_folds(mapper, open, i as nat, key@, last),
            headers_view(kept@) == kept_headers(open, i as nat, key@),
        decreases headers.len() - i,
    {
        let ghost ranges_before = ranges@;
        let ghost kept_before = kept@;
        let header = &headers[i];
        assert(open[i as int] == (header.0@, header.1));
        if chars_eq(&header.0, key) || !chars_start_with(key, &header.0) {
            ranges.push(make_region_fold(mapper, header.1, last));
            assert(ranges@ =~= old(ranges)@ + closed_folds(mapper, open, (i + 1) as nat, key@, last));
        } else {
            kept.push((copy_chars(&header.0), header.1));
            assert(headers_view(kept@) =~= headers_view(kept_before).push(open[i as int]));
        }
        i += 1;
    }
    kept
}

/// The folding ranges of a document in the order in which the scan finds them.
///
/// The tree must be well formed and the mapper must know every offset of the
/// document, the end of the document included.
pub fn create_folding_ranges(syntax: &SyntaxNode, mapper: &Mapper) -> (ranges: Vec<FoldingRange>)
    requires
        syntax.well_formed(),
        mapper.covers(syntax.span),
    ensures
        ranges@ == folding_ranges(mapper, *syntax),
{
    let mut scan = Scan {
        ranges: Vec::new(),
        comment_run: None,
        was_comment: false,
        headers: Vec::new(),
        last_non_header: None,
    };
    let ghost elements = syntax.children@;
    assert(scan@.headers =~= Seq::empty());
    let mut i: usize = 0;
    while i < syntax.children.len()
        invariant
            i <= syntax.children.len(),
            elements == syntax.children@,
            syntax.well_formed(),
            mapper.covers(syntax.span),
            scan.mapped(mapper),
            scan@ == self::scan(mapper, elements, i as nat),
        decreases syntax.children.len() - i,
    {
        let element = &syntax.children[i];
        let ghost before = scan@;
        assert(syntax.children[i as int].well_formed());
        assert(element.span().spec_within(syntax.span));
        assert(mapped(mapper, element.span()));
        let kind = element.kind();
        if kind.is_header() {
            let key = key_of(element);
            if let Some(last) = scan.last_non_header {
                let kept = close_headers(mapper, &scan.headers, &key, last, &mut scan.ranges);
                scan.headers = kept;
            }
            let ghost open = headers_view(scan.headers@);
            scan.headers.push((key, element.text_range()));
            assert(headers_view(scan.headers@) =~= open.push((header_key(*element), element.span())));
            scan.last_non_header = None;
            scan.was_comment = false;
            assert(scan@ == after_header(mapper, before, *element));
        } else if kind == SyntaxKind::Whitespace {
        } else {
            scan.last_non_header = Some(element.text_range());
            match element {
                SyntaxElement::Node(_) => {
                    push_inner_folds(mapper, element, &mut scan.ranges);
                    scan.was_comment = false;
                },
                SyntaxElement::Token(t) => {
                    match t.kind {
                        SyntaxKind::Comment => {
                            scan.comment_run = match scan.comment_run {
                                Some((first, _)) => Some((first, t.span)),
                                None => Some((t.span, t.span)),
                            };
                            scan.was_comment = true;
                        },
                        SyntaxKind::Newline => {
                            scan.was_comment = scan.was_comment && occurs_once(t.text.as_str(), '\n');
                        },
                        _ => {
                            scan.was_comment = false;
                        },
                    }
                },
            }
            assert(scan@ == after_content(mapper, before, *element));
        }
        assert(scan@ == after_element(mapper, before, *element));
        if !scan.was_comment {
            if let Some((first, last)) = scan.comment_run {
                scan.ranges.push(make_comment_fold(mapper, first, last));
                scan.comment_run = None;
            }
        }
        assert(scan@ == step(mapper, before, *element));
        i += 1;
    }
    let ghost end = scan@;
    if let Some(last) = scan.last_non_header {
        let mut j: usize = 0;
        while j < scan.headers.len()
            invariant
                j <= scan.headers.len(),
                scan.mapped(mapper),
                scan@.headers == end.headers,
                end.last_non_header == Some(last),
                scan@.comment_run == end.comment_run,
                scan@.last_non_header == end.last_non_header,
                scan.ranges@ == end.ranges + remaining_folds(mapper, end.headers, j as nat, last),
            decreases scan.headers.len() - j,
        {
            let header = scan.headers[j].1;
            assert(headers_view(scan.headers@)[j as int].1 == header);
            scan.ranges.push(make_region_fold(mapper, header, last));
            j += 1;
        }
    }
    if let Some((first, last)) = scan.comment_run {
        scan.ranges.push(make_comment_fold(mapper, first, last));
    }
    assert(scan.ranges@ =~= finish(mapper, end));
    scan.ranges
}

/// The folding ranges of a document, or nothing for a tree that is not well
/// formed or a mapper that does not know the whole document.
pub fn try_create_folding_ranges(syntax: &SyntaxNode, mapper: &Mapper) -> (r: Option<
    Vec<FoldingRange>,
>)
    ensures
        r.is_some() == (syntax.well_formed() && mapper.covers(syntax.span)),
        r matches Some(ranges) ==> ranges@ == folding_ranges(mapper, *syntax),
{
    if syntax.is_well_formed() && mapper.is_covering(syntax.span) {
        Some(create_folding_ranges(syntax, mapper))
    } else {
        None
    }
}

} // verus!

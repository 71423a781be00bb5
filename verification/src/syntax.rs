//! A model of the syntax tree of a document: kinded nodes and tokens with their spans.

use crate::span::Span;
use vstd::prelude::*;
use vstd::string::StringExecFns;

verus! {

/// The kinds of the elements of a syntax tree.
#[derive(Clone, Copy, Debug, PartialEq, Eq, Structural)]
pub enum SyntaxKind {
    Whitespace,
    Newline,
    Comment,
    Ident,
    Period,
    Comma,
    Equals,
    String,
    MultiLineString,
    StringLiteral,
    MultiLineStringLiteral,
    Integer,
    IntegerHex,
    IntegerOct,
    IntegerBin,
    Float,
    Bool,
    Date,
    BracketStart,
    BracketEnd,
    BraceStart,
    BraceEnd,
    Error,
    Key,
    Value,
    TableHeader,
    TableArrayHeader,
    Entry,
    Array,
    InlineTable,
    Root,
}

impl SyntaxKind {
    /// The kinds of nodes; every other kind is the kind of a token.
    pub open spec fn composite(self) -> bool {
        match self {
            SyntaxKind::Key
            | SyntaxKind::Value
            | SyntaxKind::TableHeader
            | SyntaxKind::TableArrayHeader
            | SyntaxKind::Entry
            | SyntaxKind::Array
            | SyntaxKind::InlineTable
            | SyntaxKind::Root => true,
            _ => false,
        }
    }

    /// The kinds of the headers of tables and of arrays of tables.
    pub open spec fn header(self) -> bool {
        self == SyntaxKind::TableHeader || self == SyntaxKind::TableArrayHeader
    }

    pub fn is_composite(&self) -> (r: bool)
        ensures
            r == self.composite(),
    {
        match self {
            SyntaxKind::Key
            | SyntaxKind::Value
            | SyntaxKind::TableHeader
            | SyntaxKind::TableArrayHeader
            | SyntaxKind::Entry
            | SyntaxKind::Array
            | SyntaxKind::InlineTable
            | SyntaxKind::Root => true,
            _ => false,
        }
    }

    pub fn is_header(&self) -> (r: bool)
        ensures
            r == self.header(),
    {
        match self {
            SyntaxKind::TableHeader | SyntaxKind::TableArrayHeader => true,
            _ => false,
        }
    }
}

/// A leaf of the tree: a piece of the document's text.
pub struct SyntaxToken {
    pub kind: SyntaxKind,
    pub span: Span,
    pub text: String,
}

/// An inner element of the tree, with its children in document order.
pub struct SyntaxNode {
    pub kind: SyntaxKind,
    pub span: Span,
    pub children: Vec<SyntaxElement>,
}

pub enum SyntaxElement {
    Node(SyntaxNode),
    Token(SyntaxToken),
}

/// The first node among the children from index `from` on.
pub open spec fn first_node_from(children: Vec<SyntaxElement>, from: nat) -> Option<SyntaxNode>
    decreases children.len() - from,
{
    if from >= children.len() {
        None
    } else {
        match children[from as int] {
            SyntaxElement::Node(n) => Some(n),
            SyntaxElement::Token(_) => first_node_from(children, from + 1),
        }
    }
}

/// The texts of the first `n` children, one after the other.
pub open spec fn children_text(children: Vec<SyntaxElement>, n: nat) -> Seq<char>
    decreases children, n,
{
    if n == 0 || n > children.len() {
        Seq::empty()
    } else {
        children_text(children, (n - 1) as nat) + children[n - 1].text()
    }
}

/// Whether one of the first `n` children is of the given kind or holds an element of it.
pub open spec fn children_have_kind(children: Vec<SyntaxElement>, n: nat, kind: SyntaxKind) -> bool
    decreases children, n,
{
    if n == 0 || n > children.len() {
        false
    } else {
        children_have_kind(children, (n - 1) as nat, kind) || children[n - 1].has_kind(kind)
    }
}

impl SyntaxElement {
    pub open spec fn spec_kind(self) -> SyntaxKind {
        match self {
            SyntaxElement::Node(n) => n.kind,
            SyntaxElement::Token(t) => t.kind,
        }
    }

    pub open spec fn span(self) -> Span {
        match self {
            SyntaxElement::Node(n) => n.span,
            SyntaxElement::Token(t) => t.span,
        }
    }

    /// The text that the element covers.
    pub open spec fn text(self) -> Seq<char>
        decreases self,
    {
        match self {
            SyntaxElement::Node(n) => children_text(n.children, n.children.len() as nat),
            SyntaxElement::Token(t) => t.text@,
        }
    }

    /// Whether the element or one of its descendants is of the given kind.
    pub open spec fn has_kind(self, kind: SyntaxKind) -> bool
        decreases self,
    {
        match self {
            SyntaxElement::Node(n) => n.kind == kind || children_have_kind(
                n.children,
                n.children.len() as nat,
                kind,
            ),
            SyntaxElement::Token(t) => t.kind == kind,
        }
    }

    /// Tokens have token kinds, nodes have node kinds, no span ends before it starts,
    /// children lie inside their parent, and every header holds a node, its key.
    pub open spec fn well_formed(self) -> bool
        decreases self,
    {
        match self {
            SyntaxElement::Token(t) => t.span.well_formed() && !t.kind.composite(),
            SyntaxElement::Node(n) => {
                &&& n.span.well_formed()
                &&& n.kind.composite()
                &&& n.kind.header() ==> first_node_from(n.children, 0) is Some
                &&& forall|i: int|
                    0 <= i < n.children.len() ==> (#[trigger] n.children[i]).well_formed()
                        && n.children[i].span().spec_within(n.span)
            },
        }
    }

    pub fn kind(&self) -> (r: SyntaxKind)
        ensures
            r == self.spec_kind(),
    {
        match self {
            SyntaxElement::Node(n) => n.kind,
            SyntaxElement::Token(t) => t.kind,
        }
    }

    pub fn text_range(&self) -> (r: Span)
        ensures
            r == self.span(),
    {
        match self {
            SyntaxElement::Node(n) => n.span,
            SyntaxElement::Token(t) => t.span,
        }
    }

    /// Appends the text of the element to `out`.
    pub fn push_text(&self, out: &mut String)
        ensures
            final(out)@ == old(out)@ + self.text(),
        decreases self,
    {
        match self {
            SyntaxElement::Token(t) => {
                out.append(t.text.as_str());
            },
            SyntaxElement::Node(n) => {
                n.push_text(out);
            },
        }
    }

    /// Whether the element or one of its descendants is of the given kind.
    pub fn contains_kind(&self, kind: SyntaxKind) -> (r: bool)
        ensures
            r == self.has_kind(kind),
        decreases self,
    {
        match self {
            SyntaxElement::Token(t) => t.kind == kind,
            SyntaxElement::Node(n) => n.contains_kind(kind),
        }
    }

    /// Decides `well_formed`.
    pub fn is_well_formed(&self) -> (r: bool)
        ensures
            r == self.well_formed(),
        decreases self,
    {
        match self {
            SyntaxElement::Token(t) => t.span.start <= t.span.end && !t.kind.is_composite(),
            SyntaxElement::Node(n) => n.is_well_formed(),
        }
    }
}

impl SyntaxNode {
    /// The node seen as an element of a tree.
    pub open spec fn element(self) -> SyntaxElement {
        SyntaxElement::Node(self)
    }

    pub open spec fn well_formed(self) -> bool {
        self.element().well_formed()
    }

    pub open spec fn text(self) -> Seq<char> {
        self.element().text()
    }

    pub open spec fn has_kind(self, kind: SyntaxKind) -> bool {
        self.element().has_kind(kind)
    }

    pub open spec fn spec_first_child(self) -> Option<SyntaxNode> {
        first_node_from(self.children, 0)
    }

    /// The first child that is a node.
    pub fn first_child(&self) -> (r: Option<&SyntaxNode>)
        ensures
            r.is_some() == self.spec_first_child().is_some(),
            r.is_some() ==> *r.unwrap() == self.spec_first_child().unwrap(),
    {
        let mut i: usize = 0;
        while i < self.children.len()
            invariant
                i <= self.children.len(),
                first_node_from(self.children, 0) == first_node_from(self.children, i as nat),
            decreases self.children.len() - i,
        {
            match &self.children[i] {
                SyntaxElement::Node(n) => {
                    return Some(n);
                },
                SyntaxElement::Token(_) => {},
            }
            i += 1;
        }
        None
    }

    pub fn push_text(&self, out: &mut String)
        ensures
            final(out)@ == old(out)@ + self.text(),
        decreases self,
    {
        let mut i: usize = 0;
        while i < self.children.len()
            invariant
                i <= self.children.len(),
                out@ == old(out)@ + children_text(self.children, i as nat),
            decreases self.children.len() - i,
        {
            let ghost before = out@;
            self.children[i].push_text(out);
            proof {
                assert(out@ == before + self.children[i as int].text());
                assert(before + self.children[i as int].text() =~= old(out)@ + children_text(
                    self.children,
                    (i + 1) as nat,
                ));
            }
            i += 1;
        }
    }

    /// The text that the node covers.
    pub fn text_string(&self) -> (r: String)
        ensures
            r@ == self.text(),
    {
        let mut out = String::new();
        self.push_text(&mut out);
        assert(Seq::<char>::empty() + self.text() =~= self.text());
        out
    }

    pub fn contains_kind(&self, kind: SyntaxKind) -> (r: bool)
        ensures
            r == self.has_kind(kind),
        decreases self,
    {
        if self.kind == kind {
            return true;
        }
        let mut i: usize = 0;
        while i < self.children.len()
            invariant
                i <= self.children.len(),
                !children_have_kind(self.children, i as nat, kind),
            decreases self.children.len() - i,
        {
            if self.children[i].contains_kind(kind) {
                assert(children_have_kind(self.children, (i + 1) as nat, kind));
                proof {
                    lemma_have_kind_monotone(self.children, (i + 1) as nat, self.children.len() as nat, kind);
                }
                return true;
            }
            i += 1;
        }
        false
    }

    pub fn is_well_formed(&self) -> (r: bool)
        ensures
            r == self.well_formed(),
        decreases self,
    {
        if !(self.span.start <= self.span.end) || !self.kind.is_composite() {
            return false;
        }
        if self.kind.is_header() && self.first_child().is_none() {
            return false;
        }
        let mut i: usize = 0;
        while i < self.children.len()
            invariant
                i <= self.children.len(),
                forall|j: int|
                    0 <= j < i ==> (#[trigger] self.children[j]).well_formed()
                        && self.children[j].span().spec_within(self.span),
            decreases self.children.len() - i,
        {
            if !self.children[i].is_well_formed() || !self.children[i].text_range().within(
                self.span,
            ) {
                return false;
            }
            i += 1;
        }
        true
    }
}

/// An element of the given kind among the first `n` children is among the first `m >= n` too.
pub proof fn lemma_have_kind_monotone(children: Vec<SyntaxElement>, n: nat, m: nat, kind: SyntaxKind)
    requires
        n <= m <= children.len(),
        children_have_kind(children, n, kind),
    ensures
        children_have_kind(children, m, kind),
    decreases m,
{
    if n < m {
        lemma_have_kind_monotone(children, n, (m - 1) as nat, kind);
    }
}

/// Whether a span holds an offset; with `inclusive`, the end of the span counts too.
pub open spec fn hits(span: Span, offset: u32, inclusive: bool) -> bool {
    (inclusive && span.spec_contains_inclusive(offset)) || span.spec_contains(offset)
}

/// The number of elements in the first `n` children and below them.
pub open spec fn children_size(children: Vec<SyntaxElement>, n: nat) -> nat
    decreases children, n,
{
    if n == 0 || n > children.len() {
        0
    } else {
        children_size(children, (n - 1) as nat) + children[n - 1].size()
    }
}

/// The first node that holds the offset among the children from index `from`
/// on and their descendants, in document order, parents before children.
pub open spec fn first_hit(
    children: Vec<SyntaxElement>,
    from: nat,
    offset: u32,
    inclusive: bool,
) -> Option<SyntaxNode>
    decreases children, children.len() - from,
{
    if from >= children.len() {
        None
    } else {
        match children[from as int] {
            SyntaxElement::Token(_) => first_hit(children, from + 1, offset, inclusive),
            SyntaxElement::Node(n) => if hits(n.span, offset, inclusive) {
                Some(n)
            } else {
                match first_hit(n.children, 0, offset, inclusive) {
                    Some(hit) => Some(hit),
                    None => first_hit(children, from + 1, offset, inclusive),
                }
            },
        }
    }
}

/// The first element of the given kind among the children from index `from`
/// on and their descendants, in document order, parents before children.
pub open spec fn first_of_kind_in(children: Vec<SyntaxElement>, from: nat, kind: SyntaxKind) -> Option<
    SyntaxElement,
>
    decreases children, children.len() - from,
{
    if from >= children.len() {
        None
    } else {
        match children[from as int].first_of_kind(kind) {
            Some(found) => Some(found),
            None => first_of_kind_in(children, from + 1, kind),
        }
    }
}

impl SyntaxElement {
    /// The number of elements in the tree of this element.
    pub open spec fn size(self) -> nat
        decreases self,
    {
        match self {
            SyntaxElement::Node(n) => 1 + children_size(n.children, n.children.len() as nat),
            SyntaxElement::Token(_) => 1,
        }
    }

    /// The first element of the given kind in the tree of this element, the
    /// element itself included, in document order, parents before children.
    pub open spec fn first_of_kind(self, kind: SyntaxKind) -> Option<SyntaxElement>
        decreases self,
    {
        if self.spec_kind() == kind {
            Some(self)
        } else {
            match self {
                SyntaxElement::Node(n) => first_of_kind_in(n.children, 0, kind),
                SyntaxElement::Token(_) => None,
            }
        }
    }

    /// The first node below this element that holds the offset.
    pub open spec fn hit(self, offset: u32, inclusive: bool) -> Option<SyntaxNode> {
        match self {
            SyntaxElement::Node(n) => first_hit(n.children, 0, offset, inclusive),
            SyntaxElement::Token(_) => None,
        }
    }

    /// The deepest node that holds the offset: the first hit below this
    /// element, then the first hit below that, as long as there is one.
    pub open spec fn deep_hit(self, offset: u32, inclusive: bool) -> Option<SyntaxNode>
        decreases self.size(),
    {
        match self.hit(offset, inclusive) {
            Some(n) => {
                if n.element().size() < self.size() {
                    match n.element().deep_hit(offset, inclusive) {
                        Some(deeper) => Some(deeper),
                        None => Some(n),
                    }
                } else {
                    Some(n)
                }
            },
            None => None,
        }
    }
}

/// A prefix of the children is no larger than all of them.
pub proof fn lemma_children_size_monotone(children: Vec<SyntaxElement>, n: nat, m: nat)
    requires
        n <= m <= children.len(),
    ensures
        children_size(children, n) <= children_size(children, m),
    decreases m,
{
    if n < m {
        lemma_children_size_monotone(children, n, (m - 1) as nat);
    }
}

/// A node that is hit among some children is smaller than all of them together.
pub proof fn lemma_hit_is_smaller(
    children: Vec<SyntaxElement>,
    from: nat,
    offset: u32,
    inclusive: bool,
)
    ensures
        first_hit(children, from, offset, inclusive) matches Some(n) ==> n.element().size()
            <= children_size(children, children.len() as nat),
    decreases children, children.len() - from,
{
    if from < children.len() {
        lemma_children_size_monotone(children, from + 1, children.len() as nat);
        assert(children_size(children, from + 1) == children_size(children, from)
            + children[from as int].size());
        match children[from as int] {
            SyntaxElement::Token(_) => {
                lemma_hit_is_smaller(children, from + 1, offset, inclusive);
            },
            SyntaxElement::Node(n) => {
                assert(n.element() == children[from as int]);
                assert(n.element().size() == 1 + children_size(n.children, n.children.len() as nat));
                if !hits(n.span, offset, inclusive) {
                    lemma_hit_is_smaller(n.children, 0, offset, inclusive);
                    lemma_hit_is_smaller(children, from + 1, offset, inclusive);
                }
            },
        }
    }
}

/// Searches in a syntax tree.
pub trait SyntaxExt {
    /// What `find_node` returns.
    spec fn found_node(&self, offset: u32, inclusive: bool) -> Option<SyntaxNode>;

    /// What `find_node_deep` returns.
    spec fn found_node_deep(&self, offset: u32, inclusive: bool) -> Option<SyntaxNode>;

    /// What `find` returns.
    spec fn found(&self, kind: SyntaxKind) -> Option<SyntaxElement>;

    /// A node below this one that holds the offset: the first in document order.
    fn find_node(&self, offset: u32, inclusive: bool) -> (r: Option<&SyntaxNode>)
        ensures
            r.is_some() == self.found_node(offset, inclusive).is_some(),
            r matches Some(n) ==> *n == self.found_node(offset, inclusive).unwrap(),
    ;

    /// The deepest node that holds the offset.
    fn find_node_deep(&self, offset: u32, inclusive: bool) -> (r: Option<&SyntaxNode>)
        ensures
            r.is_some() == self.found_node_deep(offset, inclusive).is_some(),
            r matches Some(n) ==> *n == self.found_node_deep(offset, inclusive).unwrap(),
    ;

    /// The first node or token of the given kind, this element included.
    fn find(&self, kind: SyntaxKind) -> (r: Option<&SyntaxElement>)
        ensures
            r.is_some() == self.found(kind).is_some(),
            r matches Some(e) ==> *e == self.found(kind).unwrap(),
    ;
}

fn find_hit(children: &Vec<SyntaxElement>, offset: u32, inclusive: bool) -> (r: Option<&SyntaxNode>)
    ensures
        r.is_some() == first_hit(*children, 0, offset, inclusive).is_some(),
        r matches Some(n) ==> *n == first_hit(*children, 0, offset, inclusive).unwrap(),
    decreases children,
{
    let mut i: usize = 0;
    while i < children.len()
        invariant
            i <= children.len(),
            first_hit(*children, 0, offset, inclusive) == first_hit(
                *children,
                i as nat,
                offset,
                inclusive,
            ),
        decreases children.len() - i,
    {
        match &children[i] {
            SyntaxElement::Token(_) => {},
            SyntaxElement::Node(n) => {
                if (inclusive && n.span.contains_inclusive(offset)) || n.span.contains(offset) {
                    return Some(n);
                }
                let below = find_hit(&n.children, offset, inclusive);
                if below.is_some() {
                    return below;
                }
            },
        }
        i += 1;
    }
    None
}

fn find_kind_in(children: &Vec<SyntaxElement>, kind: SyntaxKind) -> (r: Option<&SyntaxElement>)
    ensures
        r.is_some() == first_of_kind_in(*children, 0, kind).is_some(),
        r matches Some(e) ==> *e == first_of_kind_in(*children, 0, kind).unwrap(),
    decreases children,
{
    let mut i: usize = 0;
    while i < children.len()
        invariant
            i <= children.len(),
            first_of_kind_in(*children, 0, kind) == first_of_kind_in(*children, i as nat, kind),
        decreases children.len() - i,
    {
        let found = find_kind(&children[i], kind);
        if found.is_some() {
            return found;
        }
        i += 1;
    }
    None
}

fn find_kind(element: &SyntaxElement, kind: SyntaxKind) -> (r: Option<&SyntaxElement>)
    ensures
        r.is_some() == element.first_of_kind(kind).is_some(),
        r matches Some(e) ==> *e == element.first_of_kind(kind).unwrap(),
    decreases element,
{
    if element.kind() == kind {
        return Some(element);
    }
    match element {
        SyntaxElement::Node(n) => find_kind_in(&n.children, kind),
        SyntaxElement::Token(_) => None,
    }
}

impl SyntaxExt for SyntaxElement {
    open spec fn found_node(&self, offset: u32, inclusive: bool) -> Option<SyntaxNode> {
        self.hit(offset, inclusive)
    }

    open spec fn found_node_deep(&self, offset: u32, inclusive: bool) -> Option<SyntaxNode> {
        self.deep_hit(offset, inclusive)
    }

    open spec fn found(&self, kind: SyntaxKind) -> Option<SyntaxElement> {
        self.first_of_kind(kind)
    }

    fn find_node(&self, offset: u32, inclusive: bool) -> (r: Option<&SyntaxNode>) {
        match self {
            SyntaxElement::Node(n) => find_hit(&n.children, offset, inclusive),
            SyntaxElement::Token(_) => None,
        }
    }

    fn find_node_deep(&self, offset: u32, inclusive: bool) -> (r: Option<&SyntaxNode>) {
        let mut node = match self {
            SyntaxElement::Node(n) => {
                proof {
                    lemma_hit_is_smaller(n.children, 0, offset, inclusive);
                }
                match find_hit(&n.children, offset, inclusive) {
                    Some(node) => node,
                    None => {
                        return None;
                    },
                }
            },
            SyntaxElement::Token(_) => {
                return None;
            },
        };
        loop
            invariant
                self.deep_hit(offset, inclusive).is_some(),
                self.deep_hit(offset, inclusive) == match node.element().deep_hit(offset, inclusive) {
                    Some(deeper) => Some(deeper),
                    None => Some(*node),
                },
            decreases node.element().size(),
        {
            proof {
                lemma_hit_is_smaller(node.children, 0, offset, inclusive);
            }
            match find_hit(&node.children, offset, inclusive) {
                Some(deeper) => {
                    node = deeper;
                },
                None => {
                    return Some(node);
                },
            }
        }
    }

    fn find(&self, kind: SyntaxKind) -> (r: Option<&SyntaxElement>) {
        find_kind(self, kind)
    }
}

} // verus!

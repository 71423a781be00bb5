//! Which characters may stand in comments and in the four kinds of strings.

use vstd::prelude::*;

verus! {

/// The texts in which some characters may not stand.
#[derive(Clone, Copy, Debug, PartialEq, Eq, Structural)]
pub enum TextKind {
    Comment,
    String,
    MultiLineString,
    StringLiteral,
    MultiLineStringLiteral,
}

/// The control characters: `U+0000` to `U+001F` and `U+007F` to `U+009F`.
pub open spec fn is_control(c: char) -> bool {
    c as u32 <= 0x1f || 0x7f <= c as u32 <= 0x9f
}

/// The control characters of ASCII but for the tab: `U+0000` to `U+0008`,
/// `U+000A` to `U+001F` and `U+007F`.
pub open spec fn is_ascii_control_but_tab(c: char) -> bool {
    c as u32 <= 0x08 || 0x0a <= c as u32 <= 0x1f || c as u32 == 0x7f
}

/// Whether `c` may not stand in a text of the given kind. A tab may stand
/// everywhere, a line break in strings of several lines; in comments and in
/// literal strings no other control character may stand, in basic strings no
/// other control character of ASCII.
pub open spec fn forbids(kind: TextKind, c: char) -> bool {
    match kind {
        TextKind::Comment => c != '\t' && is_control(c),
        TextKind::String => c != '\t' && is_ascii_control_but_tab(c),
        TextKind::MultiLineString => c != '\t' && c != '\n' && c != '\r'
            && is_ascii_control_but_tab(c),
        TextKind::StringLiteral => c != '\t' && is_control(c),
        TextKind::MultiLineStringLiteral => c != '\t' && c != '\n' && c != '\r' && is_control(c),
    }
}

/// The indices below `n` of the characters that may not stand in a text of
/// the given kind, in rising order.
pub open spec fn forbidden(s: Seq<char>, n: nat, kind: TextKind) -> Seq<usize>
    decreases n,
{
    if n == 0 || n > s.len() {
        Seq::empty()
    } else if forbids(kind, s[n - 1]) {
        forbidden(s, (n - 1) as nat, kind).push((n - 1) as usize)
    } else {
        forbidden(s, (n - 1) as nat, kind)
    }
}

/// What a check of a text returns: nothing where every character may stand,
/// else the indices of those that may not.
pub open spec fn checked(s: Seq<char>, kind: TextKind, r: Result<(), Vec<usize>>) -> bool {
    match r {
        Ok(_) => forbidden(s, s.len(), kind).len() == 0,
        Err(indices) => indices@ == forbidden(s, s.len(), kind) && indices.len() > 0,
    }
}

/// The indices that a check lists are those of the characters that may not
/// stand in the text, each once and in rising order.
pub proof fn lemma_forbidden_indices(s: Seq<char>, n: nat, kind: TextKind)
    requires
        n <= s.len(),
        s.len() <= usize::MAX,
    ensures
        forall|k: int|
            0 <= k < forbidden(s, n, kind).len() ==> (#[trigger] forbidden(s, n, kind)[k]) < n
                && forbids(kind, s[forbidden(s, n, kind)[k] as int]),
        forall|j: int, k: int|
            0 <= j < k < forbidden(s, n, kind).len() ==> forbidden(s, n, kind)[j] < forbidden(
                s,
                n,
                kind,
            )[k],
        forall|i: int|
            0 <= i < n && forbids(kind, s[i]) ==> forbidden(s, n, kind).contains(i as usize),
        forbidden(s, n, kind).len() <= n,
    decreases n,
{
    if n > 0 {
        lemma_forbidden_indices(s, (n - 1) as nat, kind);
        let before = forbidden(s, (n - 1) as nat, kind);
        let now = forbidden(s, n, kind);
        assert forall|i: int| 0 <= i < n && forbids(kind, s[i]) implies now.contains(
            i as usize,
        ) by {
            if i < n - 1 {
                let k = choose|k: int| 0 <= k < before.len() && before[k] == i as usize;
                assert(now[k] == i as usize);
            } else {
                assert(now[now.len() - 1] == i as usize);
            }
        }
    }
}

fn control(c: char) -> (r: bool)
    ensures
        r == is_control(c),
{
    let v = c as u32;
    v <= 0x1f || (0x7f <= v && v <= 0x9f)
}

fn ascii_control_but_tab(c: char) -> (r: bool)
    ensures
        r == is_ascii_control_but_tab(c),
{
    let v = c as u32;
    v <= 0x08 || (0x0a <= v && v <= 0x1f) || v == 0x7f
}

fn is_forbidden(kind: TextKind, c: char) -> (r: bool)
    ensures
        r == forbids(kind, c),
{
    match kind {
        TextKind::Comment => c != '\t' && control(c),
        TextKind::String => c != '\t' && ascii_control_but_tab(c),
        TextKind::MultiLineString => c != '\t' && c != '\n' && c != '\r' && ascii_control_but_tab(
            c,
        ),
        TextKind::StringLiteral => c != '\t' && control(c),
        TextKind::MultiLineStringLiteral => c != '\t' && c != '\n' && c != '\r' && control(c),
    }
}

/// Checks a text of the given kind.
pub fn check(s: &str, kind: TextKind) -> (r: Result<(), Vec<usize>>)
    ensures
        checked(s@, kind, r),
{
    let chars = crate::text::chars_of(s);
    let mut err_indices: Vec<usize> = Vec::new();
    let mut i: usize = 0;
    while i < chars.len()
        invariant
            i <= chars.len(),
            chars@ == s@,
            err_indices@ == forbidden(s@, i as nat, kind),
        decreases chars.len() - i,
    {
        if is_forbidden(kind, chars[i]) {
            err_indices.push(i);
        }
        i += 1;
    }
    if err_indices.len() == 0 {
        Ok(())
    } else {
        Err(err_indices)
    }
}

/// Checks a comment: a control character other than the tab may not stand in it.
pub fn comment(s: &str) -> (r: Result<(), Vec<usize>>)
    ensures
        checked(s@, TextKind::Comment, r),
{
    check(s, TextKind::Comment)
}

/// Checks a basic string: a control character of ASCII other than the tab
/// may not stand in it.
pub fn string(s: &str) -> (r: Result<(), Vec<usize>>)
    ensures
        checked(s@, TextKind::String, r),
{
    check(s, TextKind::String)
}

/// Checks a basic string of several lines: a control character of ASCII other
/// than the tab and the line breaks may not stand in it.
pub fn multi_line_string(s: &str) -> (r: Result<(), Vec<usize>>)
    ensures
        checked(s@, TextKind::MultiLineString, r),
{
    check(s, TextKind::MultiLineString)
}

/// Checks a literal string: a control character other than the tab may not stand in it.
pub fn string_literal(s: &str) -> (r: Result<(), Vec<usize>>)
    ensures
        checked(s@, TextKind::StringLiteral, r),
{
    check(s, TextKind::StringLiteral)
}

/// Checks a literal string of several lines: a control character other than
/// the tab and the line breaks may not stand in it.
pub fn multi_line_string_literal(s: &str) -> (r: Result<(), Vec<usize>>)
    ensures
        checked(s@, TextKind::MultiLineStringLiteral, r),
{
    check(s, TextKind::MultiLineStringLiteral)
}

} // verus!

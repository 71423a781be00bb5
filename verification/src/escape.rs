//! Escape sequences in keys and basic strings.

use crate::number::digit_value;
use crate::text::{chars_of, push_char};
use vstd::prelude::*;

verus! {

/// A key or a string holds an escape sequence that is not valid.
#[derive(Clone, Copy, Debug, PartialEq, Eq, Structural)]
pub struct UnescapeError;

impl UnescapeError {
    /// The text that describes the error.
    pub fn message(&self) -> (r: String)
        ensures
            r@ == "the key contains invalid escape sequence"@,
    {
        "the key contains invalid escape sequence".to_owned()
    }
}

/// The character for a code point; surrogates and codes above `0x10FFFF` have none.
pub open spec fn scalar(code: nat) -> Option<char> {
    if code <= 0xD7FF || 0xE000 <= code <= 0x10FFFF {
        Some(code as char)
    } else {
        None
    }
}

/// The character that a backslash and `c` stand for.
pub open spec fn simple_escape(c: char) -> Option<char> {
    if c == 'b' {
        Some('\u{8}')
    } else if c == 't' {
        Some('\t')
    } else if c == 'n' {
        Some('\n')
    } else if c == 'f' {
        Some('\u{c}')
    } else if c == 'r' {
        Some('\r')
    } else if c == '"' {
        Some('"')
    } else if c == '\\' {
        Some('\\')
    } else {
        None
    }
}

/// The number that the `count` hexadecimal digits from index `from` on write.
pub open spec fn hex_value(s: Seq<char>, from: nat, count: nat) -> Option<nat>
    decreases count,
{
    if count == 0 {
        Some(0)
    } else if from + count > s.len() {
        None
    } else {
        match (hex_value(s, from, (count - 1) as nat), digit_value(s[from + count - 1])) {
            (Some(v), Some(d)) => if d < 16 {
                Some(v * 16 + d)
            } else {
                None
            },
            _ => None,
        }
    }
}

/// `c` followed by `rest`, where there is a rest.
pub open spec fn prepend(c: char, rest: Option<Seq<char>>) -> Option<Seq<char>> {
    match rest {
        Some(r) => Some(seq![c] + r),
        None => None,
    }
}

/// The character for the `count` hexadecimal digits from index `from` on,
/// followed by the text after them with its escape sequences replaced.
pub open spec fn unicode_escape(s: Seq<char>, from: nat, count: nat) -> Option<Seq<char>>
    decreases s.len() - from, 0nat,
{
    match hex_value(s, from, count) {
        Some(code) => match scalar(code) {
            Some(c) => if count > 0 {
                prepend(c, unescaped_from(s, from + count))
            } else {
                None
            },
            None => None,
        },
        None => None,
    }
}

/// The text from index `from` on with each escape sequence replaced by the
/// character that it stands for: `\b`, `\t`, `\n`, `\f`, `\r`, `\"`, `\\`,
/// `\u` with four and `\U` with eight hexadecimal digits. `None` if a
/// backslash begins anything else.
pub open spec fn unescaped_from(s: Seq<char>, from: nat) -> Option<Seq<char>>
    decreases s.len() - from, 1nat,
{
    if from >= s.len() {
        Some(Seq::empty())
    } else if s[from as int] != '\\' {
        prepend(s[from as int], unescaped_from(s, from + 1))
    } else if from + 1 >= s.len() {
        None
    } else if s[(from + 1) as int] == 'u' {
        unicode_escape(s, from + 2, 4)
    } else if s[(from + 1) as int] == 'U' {
        unicode_escape(s, from + 2, 8)
    } else {
        match simple_escape(s[(from + 1) as int]) {
            Some(c) => prepend(c, unescaped_from(s, from + 2)),
            None => None,
        }
    }
}

/// The text with each escape sequence replaced.
pub open spec fn unescaped(s: Seq<char>) -> Option<Seq<char>> {
    unescaped_from(s, 0)
}

/// `prefix` followed by `rest`, where there is a rest.
pub open spec fn continued(prefix: Seq<char>, rest: Option<Seq<char>>) -> Option<Seq<char>> {
    match rest {
        Some(r) => Some(prefix + r),
        None => None,
    }
}

/// The character with the given code.
///
/// Calls `char::from_u32`, which returns the character for every code that is
/// a Unicode scalar value and `None` for every other.
#[verifier::external_body]
fn char_from_code(code: u32) -> (r: Option<char>)
    ensures
        r == scalar(code as nat),
{
    char::from_u32(code)
}

fn simple_escape_of(c: char) -> (r: Option<char>)
    ensures
        r == simple_escape(c),
{
    if c == 'b' {
        Some('\u{8}')
    } else if c == 't' {
        Some('\t')
    } else if c == 'n' {
        Some('\n')
    } else if c == 'f' {
        Some('\u{c}')
    } else if c == 'r' {
        Some('\r')
    } else if c == '"' {
        Some('"')
    } else if c == '\\' {
        Some('\\')
    } else {
        None
    }
}

fn hex_digit_of(c: char) -> (r: Option<u32>)
    ensures
        match r {
            Some(d) => digit_value(c) == Some(d as nat) && d < 16,
            None => digit_value(c) matches Some(d) ==> d >= 16,
        },
{
    let v = c as u32;
    if 0x30 <= v && v <= 0x39 {
        Some(v - 0x30)
    } else if 0x61 <= v && v <= 0x66 {
        Some(v - 0x61 + 10)
    } else if 0x41 <= v && v <= 0x46 {
        Some(v - 0x41 + 10)
    } else {
        None
    }
}

/// Reads `count` hexadecimal digits from index `from` on.
fn read_hex(chars: &Vec<char>, from: usize, count: usize) -> (r: Option<u32>)
    requires
        count <= 8,
        from <= chars.len(),
    ensures
        match r {
            Some(v) => hex_value(chars@, from as nat, count as nat) == Some(v as nat),
            None => hex_value(chars@, from as nat, count as nat) is None,
        },
{
    if chars.len() - from < count {
        assert(count > 0);
        return None;
    }
    let mut acc: u32 = 0;
    let mut valid = true;
    let mut k: usize = 0;
    while k < count
        invariant
            k <= count <= 8,
            from + count <= chars.len(),
            valid ==> hex_value(chars@, from as nat, k as nat) == Some(acc as nat),
            valid ==> acc < pow16(k as nat),
            !valid ==> hex_value(chars@, from as nat, k as nat) is None,
        decreases count - k,
    {
        if valid {
            match hex_digit_of(chars[from + k]) {
                Some(d) => {
                    assert(pow16(k as nat) <= 0x1000_0000) by {
                        lemma_pow16(k as nat);
                    }
                    acc = acc * 16 + d;
                },
                None => {
                    valid = false;
                },
            }
        }
        k += 1;
    }
    if valid {
        Some(acc)
    } else {
        None
    }
}

/// Sixteen to the power `k`.
pub open spec fn pow16(k: nat) -> nat
    decreases k,
{
    if k == 0 {
        1
    } else {
        16 * pow16((k - 1) as nat)
    }
}

proof fn lemma_pow16(k: nat)
    requires
        k <= 7,
    ensures
        pow16(k) <= 0x1000_0000,
{
    reveal_with_fuel(pow16, 9);
}

/// Replaces the escape sequences of a text by the characters that they stand for.
pub fn unescape(s: &str) -> (r: Result<String, UnescapeError>)
    ensures
        match r {
            Ok(text) => unescaped(s@) == Some(text@),
            Err(_) => unescaped(s@) is None,
        },
{
    let chars = chars_of(s);
    let mut out = String::new();
    let mut i: usize = 0;
    proof {
        let all = unescaped_from(chars@, 0);
        if all is Some {
            assert(Seq::<char>::empty() + all.unwrap() =~= all.unwrap());
        }
    }
    while i < chars.len()
        invariant
            i <= chars.len(),
            chars@ == s@,
            unescaped(s@) == continued(out@, unescaped_from(chars@, i as nat)),
        decreases chars.len() - i,
    {
        let ghost before = out@;
        let c = chars[i];
        if c != '\\' {
            push_char(&mut out, c);
            proof {
                let rest = unescaped_from(chars@, (i + 1) as nat);
                if rest is Some {
                    assert(before + (seq![c] + rest.unwrap()) =~= out@ + rest.unwrap());
                }
            }
            i += 1;
        } else if chars.len() - i < 2 {
            return Err(UnescapeError);
        } else {
            let e = chars[i + 1];
            let count: usize = if e == 'u' { 4 } else if e == 'U' { 8 } else { 0 };
            if count > 0 {
                assert(unescaped_from(chars@, i as nat) == unicode_escape(
                    chars@,
                    (i + 2) as nat,
                    count as nat,
                ));
                let code = match read_hex(&chars, i + 2, count) {
                    Some(code) => code,
                    None => {
                        return Err(UnescapeError);
                    },
                };
                let decoded = match char_from_code(code) {
                    Some(decoded) => decoded,
                    None => {
                        return Err(UnescapeError);
                    },
                };
                assert(i + 2 + count <= chars.len());
                push_char(&mut out, decoded);
                proof {
                    let rest = unescaped_from(chars@, (i + 2 + count) as nat);
                    if rest is Some {
                        assert(before + (seq![decoded] + rest.unwrap()) =~= out@ + rest.unwrap());
                    }
                }
                i += 2 + count;
            } else {
                let decoded = match simple_escape_of(e) {
                    Some(decoded) => decoded,
                    None => {
                        return Err(UnescapeError);
                    },
                };
                push_char(&mut out, decoded);
                proof {
                    let rest = unescaped_from(chars@, (i + 2) as nat);
                    if rest is Some {
                        assert(before + (seq![decoded] + rest.unwrap()) =~= out@ + rest.unwrap());
                    }
                }
                i += 2;
            }
        }
    }
    assert(out@ + Seq::<char>::empty() =~= out@);
    Ok(out)
}

} // verus!

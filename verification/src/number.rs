//! Number literals: integers in four bases and the grammar of floats.

use crate::dom::IntegerRepr;
use vstd::prelude::*;

verus! {

/// The value of a digit: `0` to `9`, then the letters in either case from ten on.
pub open spec fn digit_value(c: char) -> Option<nat> {
    let v = c as u32;
    if 0x30 <= v <= 0x39 {
        Some((v - 0x30) as nat)
    } else if 0x61 <= v <= 0x7a {
        Some((v - 0x61 + 10) as nat)
    } else if 0x41 <= v <= 0x5a {
        Some((v - 0x41 + 10) as nat)
    } else {
        None
    }
}

/// The number that the digits of `s` write in the given base, most significant
/// digit first; `None` if a character is no digit of that base.
pub open spec fn magnitude(s: Seq<char>, radix: nat) -> Option<nat>
    decreases s.len(),
{
    if s.len() == 0 {
        Some(0)
    } else {
        match (magnitude(s.drop_last(), radix), digit_value(s.last())) {
            (Some(v), Some(d)) => if d < radix {
                Some(v * radix + d)
            } else {
                None
            },
            _ => None,
        }
    }
}

/// The signed 64-bit integer that `s` writes: an optional sign, then at least
/// one digit, and a value in range.
pub open spec fn parse_signed(s: Seq<char>, radix: nat) -> Option<i64> {
    if s.len() == 0 {
        None
    } else {
        let signed = s[0] == '+' || s[0] == '-';
        let digits = if signed { s.drop_first() } else { s };
        if digits.len() == 0 {
            None
        } else {
            match magnitude(digits, radix) {
                Some(v) => if s[0] == '-' {
                    if v <= 0x8000_0000_0000_0000 {
                        Some((-v) as i64)
                    } else {
                        None
                    }
                } else {
                    if v <= i64::MAX {
                        Some(v as i64)
                    } else {
                        None
                    }
                },
                None => None,
            }
        }
    }
}

/// The unsigned 64-bit integer that `s` writes: an optional plus sign, then at
/// least one digit, and a value in range.
pub open spec fn parse_unsigned(s: Seq<char>, radix: nat) -> Option<u64> {
    if s.len() == 0 {
        None
    } else {
        let digits = if s[0] == '+' { s.drop_first() } else { s };
        if digits.len() == 0 {
            None
        } else {
            match magnitude(digits, radix) {
                Some(v) => if v <= u64::MAX {
                    Some(v as u64)
                } else {
                    None
                },
                None => None,
            }
        }
    }
}

/// `s` without the characters equal to `c`.
pub open spec fn without_char(s: Seq<char>, c: char) -> Seq<char>
    decreases s.len(),
{
    if s.len() == 0 {
        Seq::empty()
    } else if s.last() == c {
        without_char(s.drop_last(), c)
    } else {
        without_char(s.drop_last(), c).push(s.last())
    }
}

/// `s` without every repetition of the two characters `p0 p1` at its start.
pub open spec fn without_prefix(s: Seq<char>, p0: char, p1: char) -> Seq<char>
    decreases s.len(),
{
    if s.len() >= 2 && s[0] == p0 && s[1] == p1 {
        without_prefix(s.subrange(2, s.len() as int), p0, p1)
    } else {
        s
    }
}

impl IntegerRepr {
    pub open spec fn spec_radix(self) -> nat {
        match self {
            IntegerRepr::Dec => 10,
            IntegerRepr::Bin => 2,
            IntegerRepr::Oct => 8,
            IntegerRepr::Hex => 16,
        }
    }

    /// The base of the representation.
    pub fn radix(&self) -> (r: u32)
        ensures
            r == self.spec_radix(),
    {
        match self {
            IntegerRepr::Dec => 10,
            IntegerRepr::Bin => 2,
            IntegerRepr::Oct => 8,
            IntegerRepr::Hex => 16,
        }
    }
}

/// The digits of an integer literal: the text without digit separators and,
/// for a base other than ten, without the prefix of the base.
pub open spec fn integer_digits(repr: IntegerRepr, text: Seq<char>) -> Seq<char> {
    let plain = without_char(text, '_');
    match repr {
        IntegerRepr::Dec => plain,
        IntegerRepr::Bin => without_prefix(plain, '0', 'b'),
        IntegerRepr::Oct => without_prefix(plain, '0', 'o'),
        IntegerRepr::Hex => without_prefix(plain, '0', 'x'),
    }
}

/// An integer as it is resolved: signed where it fits, else unsigned.
#[derive(Clone, Copy, Debug, PartialEq, Eq, Structural)]
pub enum Integer {
    Signed(i64),
    Unsigned(u64),
}

/// The value of an integer literal: signed if the digits fit a signed 64-bit
/// integer, else unsigned if they fit an unsigned one, else none.
pub open spec fn integer_value(repr: IntegerRepr, text: Seq<char>) -> Option<Integer> {
    let digits = integer_digits(repr, text);
    match parse_signed(digits, repr.spec_radix()) {
        Some(i) => Some(Integer::Signed(i)),
        None => match parse_unsigned(digits, repr.spec_radix()) {
            Some(u) => Some(Integer::Unsigned(u)),
            None => None,
        },
    }
}

/// Whether the digits write a number above the largest unsigned 64-bit integer.
pub open spec fn above_range(m: Option<nat>) -> bool {
    match m {
        Some(v) => v > u64::MAX,
        None => false,
    }
}

/// What a run of digits amounts to.
enum Magnitude {
    /// A character is no digit of the base.
    Invalid,
    /// The digits write this number.
    Value(u64),
    /// The digits write a number above the largest unsigned 64-bit integer.
    TooLarge,
}

fn digit_of(c: char) -> (r: Option<u32>)
    ensures
        r.is_some() == digit_value(c).is_some(),
        r matches Some(d) ==> d == digit_value(c).unwrap() && d < 36,
{
    let v = c as u32;
    if 0x30 <= v && v <= 0x39 {
        Some(v - 0x30)
    } else if 0x61 <= v && v <= 0x7a {
        Some(v - 0x61 + 10)
    } else if 0x41 <= v && v <= 0x5a {
        Some(v - 0x41 + 10)
    } else {
        None
    }
}

/// Reads the digits `chars[from..]` in the given base.
fn read_magnitude(chars: &Vec<char>, from: usize, radix: u32) -> (r: Magnitude)
    requires
        from <= chars.len(),
        2 <= radix <= 36,
    ensures
        match r {
            Magnitude::Invalid => magnitude(chars@.subrange(from as int, chars.len() as int), radix as nat)
                is None,
            Magnitude::Value(v) => magnitude(
                chars@.subrange(from as int, chars.len() as int),
                radix as nat,
            ) == Some(v as nat),
            Magnitude::TooLarge => above_range(
                magnitude(chars@.subrange(from as int, chars.len() as int), radix as nat),
            ),
        },
{
    let mut valid = true;
    let mut too_large = false;
    let mut acc: u64 = 0;
    let mut i: usize = from;
    assert(chars@.subrange(from as int, from as int) =~= Seq::<char>::empty());
    while i < chars.len()
        invariant
            from <= i <= chars.len(),
            2 <= radix <= 36,
            !valid ==> magnitude(chars@.subrange(from as int, i as int), radix as nat) is None,
            valid && !too_large ==> magnitude(chars@.subrange(from as int, i as int), radix as nat)
                == Some(acc as nat),
            valid && too_large ==> above_range(
                magnitude(chars@.subrange(from as int, i as int), radix as nat),
            ),
        decreases chars.len() - i,
    {
        let ghost before = chars@.subrange(from as int, i as int);
        let ghost after = chars@.subrange(from as int, i + 1);
        assert(after.drop_last() =~= before);
        assert(after.last() == chars@[i as int]);
        if valid {
            match digit_of(chars[i]) {
                Some(d) => {
                    if d < radix {
                        if !too_large {
                            match acc.checked_mul(radix as u64) {
                                Some(scaled) => match scaled.checked_add(d as u64) {
                                    Some(sum) => {
                                        acc = sum;
                                    },
                                    None => {
                                        too_large = true;
                                    },
                                },
                                None => {
                                    too_large = true;
                                },
                            }
                        } else {
                            let ghost v = magnitude(before, radix as nat).unwrap();
                            assert(v * (radix as nat) >= v) by (nonlinear_arith)
                                requires
                                    radix >= 1,
                            ;
                        }
                    } else {
                        valid = false;
                    }
                },
                None => {
                    valid = false;
                },
            }
        }
        i += 1;
    }
    if !valid {
        Magnitude::Invalid
    } else if too_large {
        Magnitude::TooLarge
    } else {
        Magnitude::Value(acc)
    }
}

/// Parses a signed 64-bit integer from `chars`.
pub fn signed_from_chars(chars: &Vec<char>, radix: u32) -> (r: Option<i64>)
    requires
        2 <= radix <= 36,
    ensures
        r == parse_signed(chars@, radix as nat),
{
    if chars.len() == 0 {
        return None;
    }
    let negative = chars[0] == '-';
    let from: usize = if chars[0] == '+' || chars[0] == '-' { 1 } else { 0 };
    assert(from == 1 ==> chars@.subrange(1, chars.len() as int) =~= chars@.drop_first());
    assert(from == 0 ==> chars@.subrange(0, chars.len() as int) =~= chars@);
    if from == chars.len() {
        return None;
    }
    match read_magnitude(chars, from, radix) {
        Magnitude::Value(v) => {
            if negative {
                if v <= 0x7fff_ffff_ffff_ffff {
                    Some(-(v as i64))
                } else if v == 0x8000_0000_0000_0000 {
                    Some(i64::MIN)
                } else {
                    None
                }
            } else if v <= 0x7fff_ffff_ffff_ffff {
                Some(v as i64)
            } else {
                None
            }
        },
        _ => None,
    }
}

/// Parses an unsigned 64-bit integer from `chars`.
pub fn unsigned_from_chars(chars: &Vec<char>, radix: u32) -> (r: Option<u64>)
    requires
        2 <= radix <= 36,
    ensures
        r == parse_unsigned(chars@, radix as nat),
{
    if chars.len() == 0 {
        return None;
    }
    let from: usize = if chars[0] == '+' { 1 } else { 0 };
    assert(from == 1 ==> chars@.subrange(1, chars.len() as int) =~= chars@.drop_first());
    assert(from == 0 ==> chars@.subrange(0, chars.len() as int) =~= chars@);
    if from == chars.len() {
        return None;
    }
    match read_magnitude(chars, from, radix) {
        Magnitude::Value(v) => Some(v),
        _ => None,
    }
}

/// The characters of `chars` other than `c`, in order.
pub fn remove_char(chars: &Vec<char>, c: char) -> (r: Vec<char>)
    ensures
        r@ == without_char(chars@, c),
{
    let mut r: Vec<char> = Vec::new();
    let mut i: usize = 0;
    while i < chars.len()
        invariant
            i <= chars.len(),
            r@ == without_char(chars@.take(i as int), c),
        decreases chars.len() - i,
    {
        assert(chars@.take(i + 1).drop_last() =~= chars@.take(i as int));
        if chars[i] != c {
            r.push(chars[i]);
        }
        i += 1;
    }
    assert(chars@.take(chars.len() as int) =~= chars@);
    r
}

/// The characters of `chars` after every repetition of `p0 p1` at the start.
pub fn trim_prefix(chars: &Vec<char>, p0: char, p1: char) -> (r: Vec<char>)
    ensures
        r@ == without_prefix(chars@, p0, p1),
{
    let mut start: usize = 0;
    assert(chars@.subrange(0, chars.len() as int) =~= chars@);
    while chars.len() - start >= 2 && chars[start] == p0 && chars[start + 1] == p1
        invariant
            start <= chars.len(),
            without_prefix(chars@, p0, p1) == without_prefix(
                chars@.subrange(start as int, chars.len() as int),
                p0,
                p1,
            ),
        decreases chars.len() - start,
    {
        assert(chars@.subrange(start as int, chars.len() as int).subrange(
            2,
            chars.len() - start,
        ) =~= chars@.subrange(start + 2, chars.len() as int));
        start += 2;
    }
    let mut r: Vec<char> = Vec::new();
    let mut i: usize = start;
    while i < chars.len()
        invariant
            start <= i <= chars.len(),
            r@ == chars@.subrange(start as int, i as int),
        decreases chars.len() - i,
    {
        r.push(chars[i]);
        assert(chars@.subrange(start as int, i + 1) =~= chars@.subrange(start as int, i as int).push(
            chars@[i as int],
        ));
        i += 1;
    }
    r
}

/// Resolves an integer literal written in the given base.
pub fn parse_integer(repr: IntegerRepr, text: &str) -> (r: Option<Integer>)
    ensures
        r == integer_value(repr, text@),
{
    let chars = crate::text::chars_of(text);
    let plain = remove_char(&chars, '_');
    let digits = match repr {
        IntegerRepr::Dec => plain,
        IntegerRepr::Bin => trim_prefix(&plain, '0', 'b'),
        IntegerRepr::Oct => trim_prefix(&plain, '0', 'o'),
        IntegerRepr::Hex => trim_prefix(&plain, '0', 'x'),
    };
    let radix = repr.radix();
    match signed_from_chars(&digits, radix) {
        Some(i) => Some(Integer::Signed(i)),
        None => match unsigned_from_chars(&digits, radix) {
            Some(u) => Some(Integer::Unsigned(u)),
            None => None,
        },
    }
}

/// Whether `c` is one of `0` to `9`.
pub open spec fn is_decimal_digit(c: char) -> bool {
    0x30 <= c as u32 <= 0x39
}

/// How many decimal digits stand in a row in `s` from index `from` on.
pub open spec fn digit_run(s: Seq<char>, from: nat) -> nat
    decreases s.len() - from,
{
    if from < s.len() && is_decimal_digit(s[from as int]) {
        1 + digit_run(s, from + 1)
    } else {
        0
    }
}

/// The code of the lower-case form of an ASCII letter; of any other character, its own code.
pub open spec fn ascii_lower(c: char) -> u32 {
    if 0x41 <= c as u32 <= 0x5a {
        (c as u32 + 0x20) as u32
    } else {
        c as u32
    }
}

/// Whether `s` from index `from` to its end is `word`, whatever the case of its letters.
pub open spec fn word_at(s: Seq<char>, from: nat, word: Seq<char>) -> bool {
    &&& s.len() == from + word.len()
    &&& forall|k: int| 0 <= k < word.len() ==> ascii_lower(#[trigger] s[from + k]) == word[k] as u32
}

/// Whether `s` from index `from` to its end is an exponent: `e`, an optional
/// sign and at least one digit.
pub open spec fn exponent_at(s: Seq<char>, from: nat) -> bool {
    &&& from < s.len()
    &&& (s[from as int] == 'e' || s[from as int] == 'E')
    &&& {
        let digits = if from + 1 < s.len() && (s[(from + 1) as int] == '+' || s[(from + 1) as int]
            == '-') {
            from + 2
        } else {
            from + 1
        };
        digit_run(s, digits) >= 1 && digits + digit_run(s, digits) == s.len()
    }
}

/// Whether `s` from index `from` to its end is a number: digits with at most
/// one point among them, at least one digit in all, and an optional exponent.
pub open spec fn number_at(s: Seq<char>, from: nat) -> bool {
    let whole = digit_run(s, from);
    let point = from + whole < s.len() && s[(from + whole) as int] == '.';
    let fraction = if point { digit_run(s, from + whole + 1) } else { 0 };
    let end = from + whole + fraction + if point { 1nat } else { 0nat };
    &&& whole + fraction >= 1
    &&& (end == s.len() || exponent_at(s, end))
}

/// The grammar of a float: an optional sign, then `inf`, `infinity` or `nan`
/// in any case, or a number.
pub open spec fn is_float_literal(s: Seq<char>) -> bool {
    let from = if s.len() > 0 && (s[0] == '+' || s[0] == '-') { 1nat } else { 0nat };
    ||| word_at(s, from, seq!['i', 'n', 'f'])
    ||| word_at(s, from, seq!['i', 'n', 'f', 'i', 'n', 'i', 't', 'y'])
    ||| word_at(s, from, seq!['n', 'a', 'n'])
    ||| number_at(s, from)
}

/// `s` with `NaN` in place of each `nan`, read from the left.
pub open spec fn nan_spelled(s: Seq<char>) -> Seq<char>
    decreases s.len(),
{
    if s.len() >= 3 && s[0] == 'n' && s[1] == 'a' && s[2] == 'n' {
        seq!['N', 'a', 'N'] + nan_spelled(s.subrange(3, s.len() as int))
    } else if s.len() == 0 {
        Seq::empty()
    } else {
        seq![s[0]] + nan_spelled(s.drop_first())
    }
}

/// The text of a float as it is parsed: without digit separators and with
/// `NaN` in place of `nan`.
pub open spec fn float_text(text: Seq<char>) -> Seq<char> {
    nan_spelled(without_char(text, '_'))
}

fn is_digit(c: char) -> (r: bool)
    ensures
        r == is_decimal_digit(c),
{
    let v = c as u32;
    0x30 <= v && v <= 0x39
}

fn lower(c: char) -> (r: u32)
    ensures
        r == ascii_lower(c),
{
    let v = c as u32;
    if 0x41 <= v && v <= 0x5a {
        v + 0x20
    } else {
        v
    }
}

/// Counts the decimal digits in a row from index `from` on.
fn count_digits(chars: &Vec<char>, from: usize) -> (n: usize)
    requires
        from <= chars.len(),
    ensures
        n == digit_run(chars@, from as nat),
        from + n <= chars.len(),
{
    let mut i: usize = from;
    while i < chars.len() && is_digit(chars[i])
        invariant
            from <= i <= chars.len(),
            digit_run(chars@, from as nat) == (i - from) + digit_run(chars@, i as nat),
        decreases chars.len() - i,
    {
        i += 1;
    }
    i - from
}

fn is_word_at(chars: &Vec<char>, from: usize, word: &Vec<char>) -> (r: bool)
    requires
        from <= chars.len(),
    ensures
        r == word_at(chars@, from as nat, word@),
{
    if chars.len() - from != word.len() {
        return false;
    }
    let mut k: usize = 0;
    while k < word.len()
        invariant
            k <= word.len(),
            from <= chars.len(),
            chars.len() - from == word.len(),
            forall|j: int|
                0 <= j < k ==> ascii_lower(#[trigger] chars@[from + j]) == word@[j] as u32,
        decreases word.len() - k,
    {
        if lower(chars[from + k]) != word[k] as u32 {
            return false;
        }
        k += 1;
    }
    true
}

fn is_exponent_at(chars: &Vec<char>, from: usize) -> (r: bool)
    requires
        from <= chars.len(),
    ensures
        r == exponent_at(chars@, from as nat),
{
    if from >= chars.len() {
        return false;
    }
    if chars[from] != 'e' && chars[from] != 'E' {
        return false;
    }
    let digits: usize = if from + 1 < chars.len() && (chars[from + 1] == '+' || chars[from + 1]
        == '-') {
        from + 2
    } else {
        from + 1
    };
    let n = count_digits(chars, digits);
    n >= 1 && digits + n == chars.len()
}

fn is_number_at(chars: &Vec<char>, from: usize) -> (r: bool)
    requires
        from <= chars.len(),
    ensures
        r == number_at(chars@, from as nat),
{
    let whole = count_digits(chars, from);
    let point = from + whole < chars.len() && chars[from + whole] == '.';
    let fraction = if point { count_digits(chars, from + whole + 1) } else { 0 };
    let end = from + whole + fraction + if point { 1 } else { 0 };
    whole + fraction >= 1 && (end == chars.len() || is_exponent_at(chars, end))
}

/// Decides the grammar of a float.
pub fn check_float_literal(chars: &Vec<char>) -> (r: bool)
    ensures
        r == is_float_literal(chars@),
{
    let from: usize = if chars.len() > 0 && (chars[0] == '+' || chars[0] == '-') { 1 } else { 0 };
    let inf = vec!['i', 'n', 'f'];
    let infinity = vec!['i', 'n', 'f', 'i', 'n', 'i', 't', 'y'];
    let nan = vec!['n', 'a', 'n'];
    assert(inf@ =~= seq!['i', 'n', 'f']);
    assert(infinity@ =~= seq!['i', 'n', 'f', 'i', 'n', 'i', 't', 'y']);
    assert(nan@ =~= seq!['n', 'a', 'n']);
    is_word_at(chars, from, &inf) || is_word_at(chars, from, &infinity) || is_word_at(
        chars,
        from,
        &nan,
    ) || is_number_at(chars, from)
}

/// Writes `NaN` in place of each `nan`.
pub fn spell_nan(chars: &Vec<char>) -> (r: Vec<char>)
    ensures
        r@ == nan_spelled(chars@),
{
    let mut r: Vec<char> = Vec::new();
    let mut i: usize = 0;
    assert(chars@.subrange(0, chars.len() as int) =~= chars@);
    while i < chars.len()
        invariant
            i <= chars.len(),
            nan_spelled(chars@) == r@ + nan_spelled(chars@.subrange(i as int, chars.len() as int)),
        decreases chars.len() - i,
    {
        let ghost rest = chars@.subrange(i as int, chars.len() as int);
        let ghost before = r@;
        if chars.len() - i >= 3 && chars[i] == 'n' && chars[i + 1] == 'a' && chars[i + 2] == 'n' {
            r.push('N');
            r.push('a');
            r.push('N');
            assert(rest.subrange(3, rest.len() as int) =~= chars@.subrange(
                i + 3,
                chars.len() as int,
            ));
            assert(r@ =~= before + seq!['N', 'a', 'N']);
            assert(nan_spelled(chars@) =~= r@ + nan_spelled(
                chars@.subrange(i + 3, chars.len() as int),
            ));
            i += 3;
        } else {
            r.push(chars[i]);
            assert(rest.drop_first() =~= chars@.subrange(i + 1, chars.len() as int));
            assert(r@ =~= before + seq![rest[0]]);
            assert(nan_spelled(chars@) =~= r@ + nan_spelled(
                chars@.subrange(i + 1, chars.len() as int),
            ));
            i += 1;
        }
    }
    assert(chars@.subrange(chars.len() as int, chars.len() as int) =~= Seq::<char>::empty());
    assert(r@ + Seq::<char>::empty() =~= r@);
    r
}

/// Resolves the text of a float: the text as it is parsed, if it follows the
/// grammar of a float.
pub fn parse_float(text: &str) -> (r: Option<String>)
    ensures
        r.is_some() == is_float_literal(float_text(text@)),
        r matches Some(literal) ==> literal@ == float_text(text@),
{
    let chars = crate::text::chars_of(text);
    let plain = remove_char(&chars, '_');
    let spelled = spell_nan(&plain);
    if check_float_literal(&spelled) {
        Some(crate::text::string_of(&spelled))
    } else {
        None
    }
}

} // verus!

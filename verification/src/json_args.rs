//! Tool arguments given on the command line: strict JSON, or the relaxed object syntax that
//! PowerShell forwards to native programs (bare words, single quotes, unquoted keys).
use vstd::prelude::*;
use vstd::utf8::{encode_scalar, encode_utf8};

use crate::json::{
    entries_view, json_view, obj_insert, object_insert, values_view, JsonNumber, JsonValue,
    JsonView, NumberView,
};
use crate::decimal::{below_bound, bound_digits, f64_overflow_bound, pad_zeros, pow10};
use crate::text::{
    all_digits, chars_of, copy_range, digits_at_most, digits_value, eq_ignore_case,
    eq_ignore_ascii_case, is_ascii_digit, is_ascii_ws, slice_eq, string_from_chars, trim,
    trim_chars, ascii_digit, ascii_ws, parse_unsigned, parse_unsigned_chars, unsigned_body,
    push_str, push_decimal, decimal, concat2,
};

verus! {

broadcast use vstd::string::group_string_axioms;

// ---------------------------------------------------------------------------
// Byte positions
// ---------------------------------------------------------------------------

/// The byte offset of character position `i`: the length of the UTF-8 encoding of the
/// characters before it.
pub open spec fn bpos(s: Seq<char>, i: int) -> int {
    encode_utf8(s.take(i)).len() as int
}

/// The first byte of the UTF-8 encoding of `c`.
pub open spec fn lead_byte(c: char) -> u8 {
    encode_scalar(c as u32)[0]
}

/// The length of the UTF-8 encoding of `c`.
pub open spec fn utf8_width(c: char) -> nat {
    let u = c as u32;
    if u < 0x80 {
        1
    } else if u < 0x800 {
        2
    } else if u < 0x10000 {
        3
    } else {
        4
    }
}

proof fn lemma_encode_scalar_len(c: char)
    ensures
        encode_scalar(c as u32).len() == utf8_width(c),
        utf8_width(c) >= 1,
{
    vstd::utf8::char_is_scalar(c);
}

proof fn lemma_encode_utf8_append(a: Seq<char>, c: char)
    ensures
        encode_utf8(a.push(c)) == encode_utf8(a) + encode_scalar(c as u32),
    decreases a.len(),
{
    if a.len() == 0 {
        reveal_with_fuel(encode_utf8, 2);
        assert(a.push(c).drop_first() =~= Seq::<char>::empty());
        assert(encode_utf8(a.push(c)) =~= encode_scalar(c as u32));
        assert(encode_utf8(a) =~= Seq::<u8>::empty());
    } else {
        assert(a.push(c).drop_first() =~= a.drop_first().push(c));
        lemma_encode_utf8_append(a.drop_first(), c);
        assert(encode_utf8(a.push(c)) =~= encode_utf8(a) + encode_scalar(c as u32));
    }
}

proof fn lemma_bpos_step(s: Seq<char>, i: int)
    requires
        0 <= i < s.len(),
    ensures
        bpos(s, i + 1) == bpos(s, i) + utf8_width(s[i]),
{
    assert(s.take(i + 1) =~= s.take(i).push(s[i]));
    lemma_encode_utf8_append(s.take(i), s[i]);
    lemma_encode_scalar_len(s[i]);
}

/// The positions of `s` are described by the byte offsets `offs`.
pub open spec fn offsets_ok(s: Seq<char>, offs: Seq<usize>) -> bool {
    &&& offs.len() == s.len() + 1
    &&& forall|i: int| 0 <= i <= s.len() ==> #[trigger] offs[i] == bpos(s, i)
}

fn char_width(c: char) -> (w: usize)
    ensures
        w == utf8_width(c),
{
    let u = c as u32;
    if u < 0x80 {
        1
    } else if u < 0x800 {
        2
    } else if u < 0x10000 {
        3
    } else {
        4
    }
}

/// The byte offset of every character position of `s`, and of its end.
pub fn byte_offsets(s: &[char]) -> (offs: Vec<usize>)
    requires
        4 * s@.len() <= usize::MAX,
    ensures
        offsets_ok(s@, offs@),
{
    let mut offs: Vec<usize> = Vec::new();
    offs.push(0);
    assert(s@.take(0) =~= Seq::<char>::empty());
    let mut i: usize = 0;
    while i < s.len()
        invariant
            4 * s@.len() <= usize::MAX,
            0 <= i <= s@.len(),
            offs@.len() == i + 1,
            forall|j: int| 0 <= j <= i ==> #[trigger] offs@[j] == bpos(s@, j),
            offs@[i as int] <= 4 * i,
        decreases s@.len() - i,
    {
        proof {
            lemma_bpos_step(s@, i as int);
        }
        let w = char_width(s[i]);
        let next = offs[i] + w;
        offs.push(next);
        i = i + 1;
    }
    offs
}

/// The first byte of the UTF-8 encoding of `c`.
pub fn first_byte(c: char) -> (b: u8)
    ensures
        b == lead_byte(c),
{
    let u = c as u32;
    proof {
        vstd::utf8::char_is_scalar(c);
    }
    if u < 0x80 {
        (u & 0x7F) as u8
    } else if u < 0x800 {
        0xC0 | ((u >> 6) & 0x1F) as u8
    } else if u < 0x10000 {
        0xE0 | ((u >> 12) & 0x0F) as u8
    } else {
        0xF0 | ((u >> 18) & 0x7) as u8
    }
}

// ---------------------------------------------------------------------------
// Errors
// ---------------------------------------------------------------------------

/// Why the relaxed syntax was refused; positions are byte offsets into the trimmed input.
pub enum RelaxedError {
    TrailingContent { at: usize, rest: String },
    ExpectedSeparator { at: usize, found: u8, close: char },
    Unterminated { close: char },
    ExpectedKey { at: usize },
    ExpectedKeyAtEnd,
    ExpectedValue { at: usize },
    ExpectedValueAtEnd,
    UnterminatedString,
    IncompleteUnicodeEscape { at: usize },
    InvalidUnicodeEscape { digits: String },
    InvalidUnicodeScalar { digits: String },
    ExpectedChar { expected: char, at: usize, found: u8 },
    ExpectedCharAtEnd { expected: char },
    /// The input would have to be cut inside a character: where a backslash is followed by
    /// a non-ASCII character in a quoted string that goes on to another quote or backslash,
    /// or where the four bytes after `\u` end inside a character.
    SplitsCharacter,
}

pub enum RErr {
    TrailingContent { at: int, rest: Seq<char> },
    ExpectedSeparator { at: int, found: u8, close: char },
    Unterminated { close: char },
    ExpectedKey { at: int },
    ExpectedKeyAtEnd,
    ExpectedValue { at: int },
    ExpectedValueAtEnd,
    UnterminatedString,
    IncompleteUnicodeEscape { at: int },
    InvalidUnicodeEscape { digits: Seq<char> },
    InvalidUnicodeScalar { digits: Seq<char> },
    ExpectedChar { expected: char, at: int, found: u8 },
    ExpectedCharAtEnd { expected: char },
    SplitsCharacter,
}

impl View for RelaxedError {
    type V = RErr;

    open spec fn view(&self) -> RErr {
        match self {
            RelaxedError::TrailingContent { at, rest } => RErr::TrailingContent {
                at: *at as int,
                rest: rest@,
            },
            RelaxedError::ExpectedSeparator { at, found, close } => RErr::ExpectedSeparator {
                at: *at as int,
                found: *found,
                close: *close,
            },
            RelaxedError::Unterminated { close } => RErr::Unterminated { close: *close },
            RelaxedError::ExpectedKey { at } => RErr::ExpectedKey { at: *at as int },
            RelaxedError::ExpectedKeyAtEnd => RErr::ExpectedKeyAtEnd,
            RelaxedError::ExpectedValue { at } => RErr::ExpectedValue { at: *at as int },
            RelaxedError::ExpectedValueAtEnd => RErr::ExpectedValueAtEnd,
            RelaxedError::UnterminatedString => RErr::UnterminatedString,
            RelaxedError::IncompleteUnicodeEscape { at } => RErr::IncompleteUnicodeEscape {
                at: *at as int,
            },
            RelaxedError::InvalidUnicodeEscape { digits } => RErr::InvalidUnicodeEscape {
                digits: digits@,
            },
            RelaxedError::InvalidUnicodeScalar { digits } => RErr::InvalidUnicodeScalar {
                digits: digits@,
            },
            RelaxedError::ExpectedChar { expected, at, found } => RErr::ExpectedChar {
                expected: *expected,
                at: *at as int,
                found: *found,
            },
            RelaxedError::ExpectedCharAtEnd { expected } => RErr::ExpectedCharAtEnd {
                expected: *expected,
            },
            RelaxedError::SplitsCharacter => RErr::SplitsCharacter,
        }
    }
}

// ---------------------------------------------------------------------------
// Lexical pieces
// ---------------------------------------------------------------------------

/// The first position at or after `i` that holds no ASCII whitespace.
pub open spec fn skip_ws(s: Seq<char>, i: int) -> int
    decreases s.len() - i,
{
    if 0 <= i < s.len() && is_ascii_ws(s[i]) {
        skip_ws(s, i + 1)
    } else {
        i
    }
}

/// The position after `c`, expected at `i`.
pub open spec fn expect_char(s: Seq<char>, i: int, c: char) -> Result<int, RErr> {
    if 0 <= i < s.len() {
        if s[i] == c {
            Ok(i + 1)
        } else {
            Err(RErr::ExpectedChar { expected: c, at: bpos(s, i), found: lead_byte(s[i]) })
        }
    } else {
        Err(RErr::ExpectedCharAtEnd { expected: c })
    }
}

/// The character a simple backslash escape stands for.
pub open spec fn simple_escape(e: char) -> Option<char> {
    if e == '"' {
        Some('"')
    } else if e == '\'' {
        Some('\'')
    } else if e == '\\' {
        Some('\\')
    } else if e == '/' {
        Some('/')
    } else if e == 'b' {
        Some('\x08')
    } else if e == 'f' {
        Some('\x0C')
    } else if e == 'n' {
        Some('\n')
    } else if e == 'r' {
        Some('\r')
    } else if e == 't' {
        Some('\t')
    } else {
        None
    }
}

pub open spec fn hex_digit(c: char) -> Option<nat> {
    if '0' <= c <= '9' {
        Some(((c as u32) - 48) as nat)
    } else if 'a' <= c <= 'f' {
        Some(((c as u32) - 87) as nat)
    } else if 'A' <= c <= 'F' {
        Some(((c as u32) - 55) as nat)
    } else {
        None
    }
}

/// The value of a nonempty string of hexadecimal digits.
pub open spec fn hex_value(d: Seq<char>) -> Option<nat>
    decreases d.len(),
{
    if d.len() == 0 {
        None
    } else {
        match hex_digit(d.last()) {
            None => None,
            Some(last) => if d.len() == 1 {
                Some(last)
            } else {
                match hex_value(d.drop_last()) {
                    Some(v) => Some(v * 16 + last),
                    None => None,
                }
            },
        }
    }
}

/// `u32::from_str_radix(d, 16)` for at most four characters: an optional `+`, then one or
/// more hexadecimal digits.
pub open spec fn radix16(d: Seq<char>) -> Option<nat> {
    if d.len() > 0 && d[0] == '+' {
        hex_value(d.drop_first())
    } else {
        hex_value(d)
    }
}

/// `char::from_u32`.
pub open spec fn scalar_of(code: nat) -> Option<char> {
    if code <= 0x10FFFF && !(0xD800 <= code <= 0xDFFF) {
        Some((code as u32) as char)
    } else {
        None
    }
}

/// The first position at or after `m` whose byte offset is `target`, searching while the
/// offset is below it.
pub open spec fn pos_at_byte(s: Seq<char>, m: int, target: int) -> Option<int>
    decreases s.len() - m,
{
    if !(0 <= m <= s.len()) {
        None
    } else if bpos(s, m) == target {
        Some(m)
    } else if bpos(s, m) > target || m == s.len() {
        None
    } else {
        pos_at_byte(s, m + 1, target)
    }
}

/// The `\u` escape whose four bytes start at position `k`.
pub open spec fn unicode_escape(s: Seq<char>, k: int) -> Result<(char, int), RErr> {
    let b = bpos(s, k);
    if b + 4 > bpos(s, s.len() as int) {
        Err(RErr::IncompleteUnicodeEscape { at: b })
    } else {
        match pos_at_byte(s, k, b + 4) {
            None => Err(RErr::SplitsCharacter),
            Some(m) => {
                let d = s.subrange(k, m);
                match radix16(d) {
                    None => Err(RErr::InvalidUnicodeEscape { digits: d }),
                    Some(code) => match scalar_of(code) {
                        None => Err(RErr::InvalidUnicodeScalar { digits: d }),
                        Some(c) => Ok((c, m)),
                    },
                }
            },
        }
    }
}

/// Whether a quote `q` or a backslash occurs at or after `j`.
pub open spec fn later_quote_or_backslash(s: Seq<char>, q: char, j: int) -> bool {
    exists|k: int| j <= k < s.len() && (s[k] == q || s[k] == '\\')
}

/// A string quoted with `q` whose text starts at `j`, with `acc` read so far.
pub open spec fn qstr(s: Seq<char>, q: char, j: int, acc: Seq<char>) -> Result<(Seq<char>, int), RErr>
    decreases s.len() - j,
{
    if !(0 <= j < s.len()) {
        Err(RErr::UnterminatedString)
    } else if s[j] == q {
        Ok((acc, j + 1))
    } else if s[j] == '\\' {
        if j + 1 >= s.len() {
            Ok((acc.push('\\'), j + 1))
        } else {
            let e = s[j + 1];
            match simple_escape(e) {
                Some(c) => qstr(s, q, j + 2, acc.push(c)),
                None => if e == 'u' {
                    match unicode_escape(s, j + 2) {
                        Err(err) => Err(err),
                        Ok((c, m)) => if j < m <= s.len() {
                            qstr(s, q, m, acc.push(c))
                        } else {
                            Err(RErr::UnterminatedString)
                        },
                    }
                } else if (e as u32) < 0x80 {
                    qstr(s, q, j + 2, acc.push('\\').push(e))
                } else if later_quote_or_backslash(s, q, j + 2) {
                    Err(RErr::SplitsCharacter)
                } else {
                    Err(RErr::UnterminatedString)
                },
            }
        }
    } else {
        qstr(s, q, j + 1, acc.push(s[j]))
    }
}

/// A character that ends a bare key.
pub open spec fn ends_key(c: char) -> bool {
    c == ':' || is_ascii_ws(c) || c == ',' || c == '{' || c == '}' || c == '[' || c == ']'
}

/// The end of a bare key starting at `k`.
pub open spec fn key_end(s: Seq<char>, k: int) -> int
    decreases s.len() - k,
{
    if 0 <= k < s.len() && !ends_key(s[k]) {
        key_end(s, k + 1)
    } else {
        k
    }
}

/// An object key at `i` (after whitespace): quoted, or bare up to a delimiter and trimmed.
pub open spec fn parse_key(s: Seq<char>, i: int) -> Result<(Seq<char>, int), RErr> {
    let j = skip_ws(s, i);
    if !(0 <= j < s.len()) {
        Err(RErr::ExpectedKeyAtEnd)
    } else if s[j] == '"' || s[j] == '\'' {
        qstr(s, s[j], j + 1, Seq::empty())
    } else {
        let k = key_end(s, j);
        let key = trim(s.subrange(j, k));
        if key.len() == 0 {
            Err(RErr::ExpectedKey { at: bpos(s, j) })
        } else {
            Ok((key, k))
        }
    }
}

// ---------------------------------------------------------------------------
// Exec pieces
// ---------------------------------------------------------------------------

fn skip_ws_exec(s: &[char], i: usize) -> (r: usize)
    requires
        i <= s@.len(),
    ensures
        r == skip_ws(s@, i as int),
        i <= r <= s@.len(),
        r < s@.len() ==> !is_ascii_ws(s@[r as int]),
{
    let mut j = i;
    while j < s.len() && ascii_ws(s[j])
        invariant
            i <= j <= s@.len(),
            skip_ws(s@, i as int) == skip_ws(s@, j as int),
        decreases s@.len() - j,
    {
        j = j + 1;
    }
    j
}

fn expect_exec(s: &[char], offs: &[usize], i: usize, c: char) -> (r: Result<usize, RelaxedError>)
    requires
        offsets_ok(s@, offs@),
        i <= s@.len(),
    ensures
        match r {
            Ok(k) => expect_char(s@, i as int, c) == Ok::<int, RErr>(k as int) && k == i + 1,
            Err(e) => expect_char(s@, i as int, c) == Err::<int, RErr>(e@),
        },
{
    if i < s.len() {
        if s[i] == c {
            Ok(i + 1)
        } else {
            Err(RelaxedError::ExpectedChar { expected: c, at: offs[i], found: first_byte(s[i]) })
        }
    } else {
        Err(RelaxedError::ExpectedCharAtEnd { expected: c })
    }
}

fn simple_escape_exec(e: char) -> (r: Option<char>)
    ensures
        r == simple_escape(e),
{
    if e == '"' {
        Some('"')
    } else if e == '\'' {
        Some('\'')
    } else if e == '\\' {
        Some('\\')
    } else if e == '/' {
        Some('/')
    } else if e == 'b' {
        Some('\x08')
    } else if e == 'f' {
        Some('\x0C')
    } else if e == 'n' {
        Some('\n')
    } else if e == 'r' {
        Some('\r')
    } else if e == 't' {
        Some('\t')
    } else {
        None
    }
}

fn hex_digit_exec(c: char) -> (r: Option<u32>)
    ensures
        match r {
            Some(v) => hex_digit(c) == Some(v as nat) && v < 16,
            None => hex_digit(c) is None,
        },
{
    if '0' <= c && c <= '9' {
        Some((c as u32) - 48)
    } else if 'a' <= c && c <= 'f' {
        Some((c as u32) - 87)
    } else if 'A' <= c && c <= 'F' {
        Some((c as u32) - 55)
    } else {
        None
    }
}

/// The value of the hexadecimal digits `d[from..to]`, at most four of them.
fn hex_value_exec(d: &[char], from: usize, to: usize) -> (r: Option<u32>)
    requires
        from <= to <= d@.len(),
        to - from <= 4,
    ensures
        match r {
            Some(v) => hex_value(d@.subrange(from as int, to as int)) == Some(v as nat),
            None => hex_value(d@.subrange(from as int, to as int)) is None,
        },
{
    if from == to {
        return None;
    }
    let mut acc: u32 = 0;
    let mut i = from;
    while i < to
        invariant
            from <= i <= to <= d@.len(),
            to - from <= 4,
            i > from ==> hex_value(d@.subrange(from as int, i as int)) == Some(acc as nat),
            acc < pow16(i - from),
        decreases to - i,
    {
        match hex_digit_exec(d[i]) {
            None => {
                proof {
                    lemma_hex_value_prefix_none(d@.subrange(from as int, to as int), i - from);
                }
                return None;
            },
            Some(v) => {
                proof {
                    let t = d@.subrange(from as int, i + 1);
                    assert(t.drop_last() =~= d@.subrange(from as int, i as int));
                    assert(t.last() == d@[i as int]);
                    lemma_pow16_step(i - from);
                }
                acc = acc * 16 + v;
                i = i + 1;
            },
        }
    }
    Some(acc)
}

pub open spec fn pow16(n: int) -> int
    decreases n,
{
    if n <= 0 {
        1
    } else {
        16 * pow16(n - 1)
    }
}

proof fn lemma_pow16_step(n: int)
    requires
        0 <= n < 4,
    ensures
        pow16(n + 1) == 16 * pow16(n),
        pow16(n + 1) <= 65536,
{
    reveal_with_fuel(pow16, 5);
}

proof fn lemma_hex_value_prefix_none(t: Seq<char>, i: int)
    requires
        0 <= i < t.len(),
        hex_digit(t[i]) is None,
    ensures
        hex_value(t) is None,
    decreases t.len(),
{
    if i == t.len() - 1 {
    } else {
        lemma_hex_value_prefix_none(t.drop_last(), i);
    }
}

/// `u32::from_str_radix(d[from..to], 16)` for at most four characters.
fn radix16_exec(d: &[char], from: usize, to: usize) -> (r: Option<u32>)
    requires
        from <= to <= d@.len(),
        to - from <= 4,
    ensures
        match r {
            Some(v) => radix16(d@.subrange(from as int, to as int)) == Some(v as nat),
            None => radix16(d@.subrange(from as int, to as int)) is None,
        },
{
    let ghost t = d@.subrange(from as int, to as int);
    if from < to && d[from] == '+' {
        assert(t.drop_first() =~= d@.subrange(from + 1, to as int));
        hex_value_exec(d, from + 1, to)
    } else {
        hex_value_exec(d, from, to)
    }
}

fn scalar_of_exec(code: u32) -> (r: Option<char>)
    requires
        code <= 0xFFFF,
    ensures
        r == scalar_of(code as nat),
{
    if 0xD800 <= code && code <= 0xDFFF {
        None
    } else {
        proof {
            assert(vstd::utf8::is_scalar(code));
        }
        Some(char_from_scalar(code))
    }
}

/// `char::from_u32` on a Unicode scalar value.
#[verifier::external_body]
fn char_from_scalar(code: u32) -> (c: char)
    requires
        vstd::utf8::is_scalar(code),
    ensures
        c == (code as char),
{
    char::from_u32(code).unwrap()
}

fn unicode_escape_exec(s: &[char], offs: &[usize], k: usize) -> (r: Result<(char, usize), RelaxedError>)
    requires
        offsets_ok(s@, offs@),
        k <= s@.len(),
    ensures
        match r {
            Ok((c, m)) => unicode_escape(s@, k as int) == Ok::<(char, int), RErr>((c, m as int))
                && k < m <= s@.len(),
            Err(e) => unicode_escape(s@, k as int) == Err::<(char, int), RErr>(e@),
        },
{
    let n = s.len();
    let b = offs[k];
    let total = offs[n];
    if total < 4 || b > total - 4 {
        return Err(RelaxedError::IncompleteUnicodeEscape { at: b });
    }
    let target = b + 4;
    let mut m = k;
    while m < n && offs[m] < target
        invariant
            offsets_ok(s@, offs@),
            n == s@.len(),
            k <= m <= n,
            pos_at_byte(s@, k as int, target as int) == pos_at_byte(s@, m as int, target as int),
            m - k <= bpos(s@, m as int) - b,
        decreases n - m,
    {
        proof {
            lemma_bpos_step(s@, m as int);
        }
        m = m + 1;
    }
    if offs[m] != target {
        return Err(RelaxedError::SplitsCharacter);
    }
    let digits = copy_range(s, k, m);
    assert(digits@ =~= s@.subrange(k as int, m as int));
    match radix16_exec(s, k, m) {
        None => Err(RelaxedError::InvalidUnicodeEscape { digits: string_from_chars(&digits) }),
        Some(code) => {
            proof {
                lemma_radix16_bound(s@.subrange(k as int, m as int));
            }
            match scalar_of_exec(code) {
                None => Err(
                    RelaxedError::InvalidUnicodeScalar { digits: string_from_chars(&digits) },
                ),
                Some(c) => {
                    proof {
                        lemma_bpos_positive(s@, k as int, m as int);
                    }
                    Ok((c, m))
                },
            }
        },
    }
}

proof fn lemma_bpos_positive(s: Seq<char>, k: int, m: int)
    requires
        0 <= k <= m <= s.len(),
        bpos(s, m) == bpos(s, k) + 4,
    ensures
        k < m,
{
}

proof fn lemma_hex_value_bound(d: Seq<char>)
    requires
        hex_value(d) is Some,
    ensures
        hex_value(d)->0 < pow16(d.len() as int),
    decreases d.len(),
{
    if d.len() > 1 {
        lemma_hex_value_bound(d.drop_last());
        assert(pow16(d.len() as int) == 16 * pow16(d.len() - 1));
    } else {
        assert(pow16(1) == 16 * pow16(0));
    }
}

proof fn lemma_radix16_bound(d: Seq<char>)
    requires
        d.len() <= 4,
        radix16(d) is Some,
    ensures
        radix16(d)->0 <= 0xFFFF,
{
    reveal_with_fuel(pow16, 5);
    if d.len() > 0 && d[0] == '+' {
        lemma_hex_value_bound(d.drop_first());
    } else {
        lemma_hex_value_bound(d);
    }
}


fn later_quote_or_backslash_exec(s: &[char], q: char, j: usize) -> (r: bool)
    requires
        j <= s@.len(),
    ensures
        r == later_quote_or_backslash(s@, q, j as int),
{
    let mut k = j;
    while k < s.len()
        invariant
            j <= k <= s@.len(),
            forall|x: int| j <= x < k ==> !(s@[x] == q || s@[x] == '\\'),
        decreases s@.len() - k,
    {
        if s[k] == q || s[k] == '\\' {
            return true;
        }
        k = k + 1;
    }
    false
}

/// The string quoted with `q` whose text starts at `j0`.
fn qstr_exec(s: &[char], offs: &[usize], q: char, j0: usize) -> (r: Result<(Vec<char>, usize), RelaxedError>)
    requires
        offsets_ok(s@, offs@),
        j0 <= s@.len(),
    ensures
        match r {
            Ok((v, k)) => qstr(s@, q, j0 as int, Seq::empty()) == Ok::<(Seq<char>, int), RErr>((v@, k as int))
                && j0 < k <= s@.len(),
            Err(e) => qstr(s@, q, j0 as int, Seq::empty()) == Err::<(Seq<char>, int), RErr>(e@),
        },
{
    let n = s.len();
    let mut acc: Vec<char> = Vec::new();
    let mut j = j0;
    loop
        invariant
            offsets_ok(s@, offs@),
            n == s@.len(),
            j0 <= j <= n,
            qstr(s@, q, j0 as int, Seq::empty()) == qstr(s@, q, j as int, acc@),
        decreases n - j,
    {
        if j >= n {
            return Err(RelaxedError::UnterminatedString);
        }
        let c = s[j];
        if c == q {
            return Ok((acc, j + 1));
        }
        if c == '\\' {
            if j + 1 >= n {
                acc.push('\\');
                return Ok((acc, j + 1));
            }
            let e = s[j + 1];
            match simple_escape_exec(e) {
                Some(x) => {
                    acc.push(x);
                    j = j + 2;
                },
                None => {
                    if e == 'u' {
                        match unicode_escape_exec(s, offs, j + 2) {
                            Err(err) => {
                                return Err(err);
                            },
                            Ok((x, m)) => {
                                acc.push(x);
                                j = m;
                            },
                        }
                    } else if (e as u32) < 0x80 {
                        acc.push('\\');
                        acc.push(e);
                        j = j + 2;
                    } else if later_quote_or_backslash_exec(s, q, j + 2) {
                        return Err(RelaxedError::SplitsCharacter);
                    } else {
                        return Err(RelaxedError::UnterminatedString);
                    }
                },
            }
        } else {
            acc.push(c);
            j = j + 1;
        }
    }
}

fn ends_key_exec(c: char) -> (r: bool)
    ensures
        r == ends_key(c),
{
    c == ':' || ascii_ws(c) || c == ',' || c == '{' || c == '}' || c == '[' || c == ']'
}

/// An object key at `i`.
fn parse_key_exec(s: &[char], offs: &[usize], i: usize) -> (r: Result<(Vec<char>, usize), RelaxedError>)
    requires
        offsets_ok(s@, offs@),
        i <= s@.len(),
    ensures
        match r {
            Ok((key, k)) => parse_key(s@, i as int) == Ok::<(Seq<char>, int), RErr>((key@, k as int))
                && i < k <= s@.len(),
            Err(e) => parse_key(s@, i as int) == Err::<(Seq<char>, int), RErr>(e@),
        },
{
    let j = skip_ws_exec(s, i);
    if j >= s.len() {
        return Err(RelaxedError::ExpectedKeyAtEnd);
    }
    if s[j] == '"' || s[j] == '\'' {
        return qstr_exec(s, offs, s[j], j + 1);
    }
    let mut k = j;
    while k < s.len() && !ends_key_exec(s[k])
        invariant
            j <= k <= s@.len(),
            key_end(s@, j as int) == key_end(s@, k as int),
        decreases s@.len() - k,
    {
        k = k + 1;
    }
    let raw = copy_range(s, j, k);
    let key = trim_chars(&raw);
    if key.len() == 0 {
        return Err(RelaxedError::ExpectedKey { at: offs[j] });
    }
    proof {
        if k == j {
            assert(raw@ =~= Seq::<char>::empty());
            assert(trim(raw@) =~= Seq::<char>::empty());
        }
    }
    Ok((key, k))
}

// ---------------------------------------------------------------------------
// Bare values
// ---------------------------------------------------------------------------

/// The end of a bare value starting at `k`, given the open braces `bd`, brackets `kd` and
/// the quote `aq` it is inside: a `,` or `}` outside any nesting ends it, as does the end.
pub open spec fn bare_scan(s: Seq<char>, k: int, bd: nat, kd: nat, aq: Option<char>) -> int
    decreases s.len() - k,
{
    if !(0 <= k < s.len()) {
        k
    } else {
        let c = s[k];
        match aq {
            Some(q) => if c == '\\' {
                if k + 1 < s.len() {
                    bare_scan(s, k + 2, bd, kd, aq)
                } else {
                    bare_scan(s, k + 1, bd, kd, aq)
                }
            } else if c == q {
                bare_scan(s, k + 1, bd, kd, None)
            } else {
                bare_scan(s, k + 1, bd, kd, aq)
            },
            None => if c == '"' || c == '\'' {
                bare_scan(s, k + 1, bd, kd, Some(c))
            } else if c == '{' {
                bare_scan(s, k + 1, bd + 1, kd, None)
            } else if c == '}' {
                if bd == 0 && kd == 0 {
                    k
                } else {
                    bare_scan(
                        s,
                        k + 1,
                        if bd > 0 {
                            (bd - 1) as nat
                        } else {
                            0
                        },
                        kd,
                        None,
                    )
                }
            } else if c == '[' {
                bare_scan(s, k + 1, bd, kd + 1, None)
            } else if c == ']' {
                bare_scan(
                    s,
                    k + 1,
                    bd,
                    if kd > 0 {
                        (kd - 1) as nat
                    } else {
                        0
                    },
                    None,
                )
            } else if c == ',' && bd == 0 && kd == 0 {
                k
            } else {
                bare_scan(s, k + 1, bd, kd, None)
            },
        }
    }
}

fn bare_scan_exec(s: &[char], j: usize) -> (r: usize)
    requires
        j <= s@.len(),
    ensures
        r == bare_scan(s@, j as int, 0, 0, None),
        j <= r <= s@.len(),
{
    let n = s.len();
    let mut k = j;
    let mut bd: usize = 0;
    let mut kd: usize = 0;
    let mut aq: Option<char> = None;
    while k < n
        invariant
            n == s@.len(),
            j <= k <= n,
            bd + kd <= k - j,
            bare_scan(s@, j as int, 0, 0, None) == bare_scan(s@, k as int, bd as nat, kd as nat, aq),
        decreases n - k,
    {
        let c = s[k];
        match aq {
            Some(q) => {
                if c == '\\' {
                    if k + 1 < n {
                        k = k + 2;
                    } else {
                        k = k + 1;
                    }
                } else if c == q {
                    aq = None;
                    k = k + 1;
                } else {
                    k = k + 1;
                }
            },
            None => {
                if c == '"' || c == '\'' {
                    aq = Some(c);
                    k = k + 1;
                } else if c == '{' {
                    bd = bd + 1;
                    k = k + 1;
                } else if c == '}' {
                    if bd == 0 && kd == 0 {
                        return k;
                    }
                    bd = if bd > 0 {
                        bd - 1
                    } else {
                        0
                    };
                    k = k + 1;
                } else if c == '[' {
                    kd = kd + 1;
                    k = k + 1;
                } else if c == ']' {
                    kd = if kd > 0 {
                        kd - 1
                    } else {
                        0
                    };
                    k = k + 1;
                } else if c == ',' && bd == 0 && kd == 0 {
                    return k;
                } else {
                    k = k + 1;
                }
            },
        }
    }
    k
}

/// `i64::from_str`: an optional sign, one or more decimal digits, in range.
pub open spec fn parse_i64(t: Seq<char>) -> Option<int> {
    let neg = t.len() > 0 && t[0] == '-';
    let body = if t.len() > 0 && (t[0] == '+' || t[0] == '-') {
        t.drop_first()
    } else {
        t
    };
    if body.len() == 0 || !all_digits(body) {
        None
    } else if neg {
        if digits_value(body) <= 0x8000_0000_0000_0000 {
            Some(-digits_value(body))
        } else {
            None
        }
    } else if digits_value(body) <= 0x7FFF_FFFF_FFFF_FFFF {
        Some(digits_value(body) as int)
    } else {
        None
    }
}

/// The number of leading decimal digits.
pub open spec fn lead_digits(u: Seq<char>) -> nat
    decreases u.len(),
{
    if u.len() > 0 && is_ascii_digit(u[0]) {
        1 + lead_digits(u.drop_first())
    } else {
        0
    }
}

/// The part after an exponent marker: an optional sign and one or more digits.
pub open spec fn exp_ok(r: Seq<char>) -> bool {
    let u = if r.len() > 0 && (r[0] == '+' || r[0] == '-') {
        r.drop_first()
    } else {
        r
    };
    u.len() > 0 && all_digits(u)
}

/// The length of an optional leading sign.
pub open spec fn sign_len(t: Seq<char>) -> int {
    if t.len() > 0 && (t[0] == '+' || t[0] == '-') {
        1
    } else {
        0
    }
}

/// A decimal `f64` literal as `f64::from_str` reads one: an optional sign, digits with an
/// optional fraction (at least one digit in all), an optional exponent.
pub open spec fn float_syntax(t: Seq<char>) -> bool {
    let s0 = sign_len(t);
    let q1 = s0 + lead_digits(t.skip(s0));
    let dot = q1 < t.len() && t[q1] == '.';
    let q = if dot {
        q1 + 1 + lead_digits(t.skip(q1 + 1))
    } else {
        q1
    };
    let digits = (q1 - s0) + (if dot {
        q - q1 - 1
    } else {
        0
    });
    digits >= 1 && (q == t.len() || ((t[q] == 'e' || t[q] == 'E') && exp_ok(t.skip(q + 1))))
}

/// Where the integer digits of a decimal literal end.
pub open spec fn float_int_end(t: Seq<char>) -> int {
    sign_len(t) + lead_digits(t.skip(sign_len(t)))
}

/// Whether a decimal literal has a point after its integer digits.
pub open spec fn float_has_dot(t: Seq<char>) -> bool {
    float_int_end(t) < t.len() && t[float_int_end(t)] == '.'
}

/// Where the digits of a decimal literal (before any exponent) end.
pub open spec fn float_mant_end(t: Seq<char>) -> int {
    if float_has_dot(t) {
        float_int_end(t) + 1 + lead_digits(t.skip(float_int_end(t) + 1))
    } else {
        float_int_end(t)
    }
}

/// The digits of a decimal literal's mantissa, without its point.
pub open spec fn float_digits(t: Seq<char>) -> Seq<char> {
    t.subrange(sign_len(t), float_int_end(t)) + if float_has_dot(t) {
        t.subrange(float_int_end(t) + 1, float_mant_end(t))
    } else {
        Seq::empty()
    }
}

/// The digits of an exponent, without its sign.
pub open spec fn exp_digits(r: Seq<char>) -> Seq<char> {
    if r.len() > 0 && (r[0] == '+' || r[0] == '-') {
        r.drop_first()
    } else {
        r
    }
}

/// The value of an exponent: an optional sign and digits.
pub open spec fn exp_value(r: Seq<char>) -> int {
    if r.len() > 0 && r[0] == '-' {
        -digits_value(exp_digits(r))
    } else {
        digits_value(exp_digits(r)) as int
    }
}

/// The power of ten by which a decimal literal scales its mantissa digits: its exponent
/// less the number of digits after its point.
pub open spec fn float_scale(t: Seq<char>) -> int {
    let q = float_mant_end(t);
    let frac = if float_has_dot(t) {
        q - float_int_end(t) - 1
    } else {
        0
    };
    let exp = if q < t.len() {
        exp_value(t.skip(q + 1))
    } else {
        0
    };
    exp - frac
}

/// Whether reading a decimal literal as `f64` gives a finite number: its magnitude is
/// below the value that rounds to infinity.
pub open spec fn float_finite(t: Seq<char>) -> bool {
    below_bound(digits_value(float_digits(t)), float_scale(t))
}

/// The backslash escapes of a bare token decoded.
pub open spec fn dec(t: Seq<char>, i: int, acc: Seq<char>) -> Seq<char>
    decreases t.len() - i,
{
    if !(0 <= i < t.len()) {
        acc
    } else if t[i] != '\\' {
        dec(t, i + 1, acc.push(t[i]))
    } else if i + 1 >= t.len() {
        acc.push('\\')
    } else {
        let e = t[i + 1];
        match simple_escape(e) {
            Some(c) => dec(t, i + 2, acc.push(c)),
            None => if e == 'u' {
                let end = if i + 6 <= t.len() {
                    i + 6
                } else {
                    t.len() as int
                };
                let d = t.subrange(i + 2, end);
                if d.len() == 4 && radix16(d) is Some && scalar_of(radix16(d)->0) is Some {
                    dec(t, end, acc.push(scalar_of(radix16(d)->0)->0))
                } else {
                    dec(t, end, acc + seq!['\\', 'u'] + d)
                }
            } else {
                dec(t, i + 2, acc.push('\\').push(e))
            },
        }
    }
}

pub open spec fn decode_relaxed(t: Seq<char>) -> Seq<char> {
    dec(t, 0, Seq::empty())
}

/// The value a bare token stands for: a boolean or null word in any ASCII case, an
/// integer, a decimal literal that `f64` holds without overflow, or else the token with its
/// escapes decoded.
pub open spec fn classify(t: Seq<char>) -> JsonView {
    if eq_ignore_case(t, "true"@) {
        JsonView::Bool(true)
    } else if eq_ignore_case(t, "false"@) {
        JsonView::Bool(false)
    } else if eq_ignore_case(t, "null"@) || eq_ignore_case(t, "none"@) {
        JsonView::Null
    } else {
        match parse_i64(t) {
            Some(v) => JsonView::Number(NumberView::Int(v)),
            None => match parse_unsigned(t, u64::MAX as nat) {
                Some(v) => JsonView::Number(NumberView::Int(v as int)),
                None => if float_syntax(t) && float_finite(t) {
                    JsonView::Number(NumberView::Float(t))
                } else {
                    JsonView::Str(decode_relaxed(t))
                },
            },
        }
    }
}

/// A bare value at `j`.
pub open spec fn parse_bare(s: Seq<char>, j: int) -> Result<(JsonView, int), RErr> {
    let k = bare_scan(s, j, 0, 0, None);
    let t = trim(s.subrange(j, k));
    if t.len() == 0 {
        Err(RErr::ExpectedValue { at: bpos(s, j) })
    } else {
        Ok((classify(t), k))
    }
}


/// `i64::from_str`.
fn parse_i64_exec(t: &[char]) -> (r: Option<i64>)
    ensures
        match r {
            Some(v) => parse_i64(t@) == Some(v as int),
            None => parse_i64(t@) is None,
        },
{
    let n = t.len();
    let signed = n > 0 && (t[0] == '+' || t[0] == '-');
    let neg = n > 0 && t[0] == '-';
    let from: usize = if signed {
        1
    } else {
        0
    };
    proof {
        let body = if t@.len() > 0 && (t@[0] == '+' || t@[0] == '-') {
            t@.drop_first()
        } else {
            t@
        };
        assert(body =~= t@.skip(from as int));
    }
    if from == n {
        return None;
    }
    if neg {
        match digits_at_most(t, from, 0x8000_0000_0000_0000u64) {
            None => None,
            Some(v) => {
                if v == 0x8000_0000_0000_0000u64 {
                    Some(i64::MIN)
                } else {
                    Some(-(v as i64))
                }
            },
        }
    } else {
        match digits_at_most(t, from, 0x7FFF_FFFF_FFFF_FFFFu64) {
            None => None,
            Some(v) => Some(v as i64),
        }
    }
}

/// The first position at or after `p` that holds no decimal digit.
fn digits_end(t: &[char], p: usize) -> (q: usize)
    requires
        p <= t@.len(),
    ensures
        p <= q <= t@.len(),
        lead_digits(t@.skip(p as int)) == q - p,
        forall|x: int| p <= x < q ==> is_ascii_digit(#[trigger] t@[x]),
        q < t@.len() ==> !is_ascii_digit(t@[q as int]),
{
    let mut q = p;
    while q < t.len() && ascii_digit(t[q])
        invariant
            p <= q <= t@.len(),
            lead_digits(t@.skip(p as int)) == (q - p) + lead_digits(t@.skip(q as int)),
            forall|x: int| p <= x < q ==> is_ascii_digit(#[trigger] t@[x]),
        decreases t@.len() - q,
    {
        assert(t@.skip(q as int).drop_first() =~= t@.skip(q + 1));
        q = q + 1;
    }
    q
}

fn all_digits_from(t: &[char], p: usize) -> (r: bool)
    requires
        p <= t@.len(),
    ensures
        r == all_digits(t@.skip(p as int)),
{
    let q = digits_end(t, p);
    if q == t.len() {
        assert forall|i: int| 0 <= i < t@.skip(p as int).len() implies is_ascii_digit(
            #[trigger] t@.skip(p as int)[i],
        ) by {
            assert(t@.skip(p as int)[i] == t@[p + i]);
        }
        true
    } else {
        assert(t@.skip(p as int)[q - p] == t@[q as int]);
        false
    }
}

/// Whether `t[p..]` is an optional sign and one or more digits.
fn exp_ok_exec(t: &[char], p: usize) -> (r: bool)
    requires
        p <= t@.len(),
    ensures
        r == exp_ok(t@.skip(p as int)),
{
    let n = t.len();
    let e1: usize = if p < n && (t[p] == '+' || t[p] == '-') {
        p + 1
    } else {
        p
    };
    proof {
        let rr = t@.skip(p as int);
        if p < n {
            assert(rr[0] == t@[p as int]);
        }
        let uu = if rr.len() > 0 && (rr[0] == '+' || rr[0] == '-') {
            rr.drop_first()
        } else {
            rr
        };
        assert(uu =~= t@.skip(e1 as int));
    }
    e1 < n && all_digits_from(t, e1)
}

/// Whether `t` is a decimal `f64` literal.
fn float_syntax_exec(t: &[char]) -> (r: bool)
    ensures
        r == float_syntax(t@),
{
    let n = t.len();
    let s0: usize = if n > 0 && (t[0] == '+' || t[0] == '-') {
        1
    } else {
        0
    };
    let q1 = digits_end(t, s0);
    let dot = q1 < n && t[q1] == '.';
    let q = if dot {
        digits_end(t, q1 + 1)
    } else {
        q1
    };
    let digits = if dot {
        (q1 - s0) + (q - (q1 + 1))
    } else {
        q1 - s0
    };
    if digits < 1 {
        return false;
    }
    if q == n {
        return true;
    }
    (t[q] == 'e' || t[q] == 'E') && exp_ok_exec(t, q + 1)
}

/// The limit at which an exponent's digits stop being read: beyond it the literal's
/// magnitude is far outside what the finiteness test looks at.
const EXP_CAP: u128 = 100_000_000_000_000_000_000;

/// The value of an exponent `t[p..]` (a sign and digits), its digits read up to
/// `EXP_CAP`: whether it is negative, and its magnitude or `EXP_CAP`, whichever is less.
fn exp_clamped(t: &[char], p: usize) -> (r: (bool, u128))
    requires
        p <= t@.len(),
        exp_ok(t@.skip(p as int)),
    ensures
        r.0 == (t@.skip(p as int)[0] == '-'),
        r.1 == (if digits_value(exp_digits(t@.skip(p as int))) < EXP_CAP {
            digits_value(exp_digits(t@.skip(p as int)))
        } else {
            EXP_CAP as nat
        }),
{
    let ghost rr = t@.skip(p as int);
    assert(rr[0] == t@[p as int]);
    let neg = t[p] == '-';
    let start: usize = if t[p] == '+' || t[p] == '-' {
        p + 1
    } else {
        p
    };
    let ghost ds = exp_digits(rr);
    assert(ds =~= t@.skip(start as int));
    let mut x: u128 = 0;
    let mut i: usize = start;
    assert(ds.take(0) =~= Seq::<char>::empty());
    while i < t.len()
        invariant
            start <= i <= t@.len(),
            ds == t@.skip(start as int),
            all_digits(ds),
            x == (if digits_value(ds.take(i - start)) < EXP_CAP {
                digits_value(ds.take(i - start))
            } else {
                EXP_CAP as nat
            }),
        decreases t@.len() - i,
    {
        let ghost k = (i - start) as int;
        assert(ds.take(k + 1).drop_last() =~= ds.take(k));
        assert(ds.take(k + 1).last() == t@[i as int]);
        assert(is_ascii_digit(ds[k]));
        let d = (t[i] as u32 - 48) as u128;
        if x < EXP_CAP {
            x = x * 10 + d;
            if x > EXP_CAP {
                x = EXP_CAP;
            }
        }
        i = i + 1;
    }
    assert(ds.take(ds.len() as int) =~= ds);
    (neg, x)
}

/// The mantissa digits of a decimal literal, the number of them after its point, and where
/// its exponent marker (if any) stands.
fn float_parts(t: &[char]) -> (r: (Vec<char>, usize, usize))
    requires
        float_syntax(t@),
    ensures
        r.0@ == float_digits(t@),
        all_digits(r.0@),
        r.2 == float_mant_end(t@),
        r.2 <= t@.len(),
        r.1 as int == (if float_has_dot(t@) {
            r.2 - float_int_end(t@) - 1
        } else {
            0
        }),
        r.2 < t@.len() ==> exp_ok(t@.skip(r.2 + 1)),
{
    let n = t.len();
    let s0: usize = if n > 0 && (t[0] == '+' || t[0] == '-') {
        1
    } else {
        0
    };
    let q1 = digits_end(t, s0);
    let dot = q1 < n && t[q1] == '.';
    let q = if dot {
        digits_end(t, q1 + 1)
    } else {
        q1
    };
    let mut d: Vec<char> = Vec::new();
    push_slice_range(&mut d, t, s0, q1);
    if dot {
        push_slice_range(&mut d, t, q1 + 1, q);
    }
    proof {
        assert(s0 == sign_len(t@));
        assert(q1 == float_int_end(t@));
        assert(dot == float_has_dot(t@));
        assert(q == float_mant_end(t@));
        assert(d@ =~= float_digits(t@));
        assert forall|i: int| 0 <= i < d@.len() implies is_ascii_digit(#[trigger] d@[i]) by {
            if i < q1 - s0 {
                assert(d@[i] == t@[s0 + i]);
            } else {
                assert(d@[i] == t@[q1 + 1 + (i - (q1 - s0))]);
            }
        }
    }
    let frac: usize = if dot {
        q - q1 - 1
    } else {
        0
    };
    (d, frac, q)
}

/// Whether a decimal literal that `float_syntax` accepts reads as a finite `f64`.
fn float_finite_exec(t: &[char]) -> (r: bool)
    requires
        float_syntax(t@),
    ensures
        r == float_finite(t@),
{
    let n = t.len();
    let (d, frac, q) = float_parts(t);
    let (neg, x) = if q < n {
        exp_clamped(t, q + 1)
    } else {
        (false, 0)
    };
    let ghost e = float_scale(t@);
    let ghost ev = if q < n {
        exp_value(t@.skip(q + 1))
    } else {
        0
    };
    assert(e == ev - frac);
    let mut z: usize = 0;
    while z < d.len() && d[z] == '0'
        invariant
            z <= d@.len(),
            forall|i: int| 0 <= i < z ==> #[trigger] d@[i] == '0',
        decreases d@.len() - z,
    {
        z = z + 1;
    }
    let ghost m = digits_value(d@);
    let ghost sig = d@.skip(z as int);
    proof {
        crate::decimal::lemma_dv_zeros(d@.take(z as int));
        assert(d@.take(z as int) + sig =~= d@);
        crate::decimal::lemma_dv_concat(d@.take(z as int), sig);
        assert(digits_value(sig) == m);
        assert(all_digits(sig)) by {
            assert forall|i: int| 0 <= i < sig.len() implies is_ascii_digit(#[trigger] sig[i]) by {
                assert(sig[i] == d@[z + i]);
            }
        }
    }
    if z == d.len() {
        proof {
            crate::decimal::lemma_bound_digits();
            assert(sig.len() == 0);
            assert(m == 0);
            if e >= 0 {
                assert(m * pow10(e as nat) == 0) by (nonlinear_arith)
                    requires
                        m == 0,
                ;
            } else {
                crate::decimal::lemma_pow10_pos((-e) as nat);
                assert(f64_overflow_bound() * pow10((-e) as nat) > 0) by (nonlinear_arith)
                    requires
                        f64_overflow_bound() >= 1,
                        pow10((-e) as nat) >= 1,
                ;
            }
        }
        return true;
    }
    let nd: usize = d.len() - z;
    proof {
        crate::decimal::lemma_dv_lead(sig);
        crate::decimal::lemma_dv_bound(sig);
        crate::decimal::lemma_below_bound_by_magnitude(m, nd as nat, e);
    }
    let signed: i128 = if neg {
        -(x as i128)
    } else {
        x as i128
    };
    let pc: i128 = nd as i128 + signed - frac as i128;
    proof {
        if q < n {
            let rr = t@.skip(q + 1);
            if x < EXP_CAP {
                assert(signed == ev);
                assert(pc == nd + e);
            } else if neg {
                assert(ev <= -(EXP_CAP as int));
                assert(nd + e <= pc);
                assert(pc < 0);
            } else {
                assert(ev >= EXP_CAP as int);
                assert(nd + e >= pc);
                assert(pc > 310);
            }
        } else {
            assert(pc == nd + e);
        }
    }
    if pc <= 308 {
        return true;
    }
    if pc >= 310 {
        return false;
    }
    assert(nd + e == 309);
    proof {
        crate::decimal::lemma_below_bound_padded(sig, e);
    }
    digits_below_bound(&d, z)
}

/// Whether the digits `d[z..]`, padded with zeros to at least 309 digits, compare below the
/// digits of `f64_overflow_bound()` padded alike.
fn digits_below_bound(d: &Vec<char>, z: usize) -> (r: bool)
    requires
        z <= d@.len(),
        all_digits(d@.skip(z as int)),
    ensures
        ({
            let sig = d@.skip(z as int);
            let len: nat = if sig.len() > 309 {
                sig.len()
            } else {
                309
            };
            r == (digits_value(pad_zeros(sig, len)) < digits_value(
                pad_zeros(bound_digits(), len),
            ))
        }),
{
    let ghost sig = d@.skip(z as int);
    let nd: usize = d.len() - z;
    assert(d@.len() == d.len());
    let tb: Vec<char> = vec![
        '1', '7', '9', '7', '6', '9', '3', '1', '3', '4', '8', '6', '2', '3', '1', '5',
        '8', '0', '7', '9', '3', '7', '2', '8', '9', '7', '1', '4', '0', '5', '3', '0',
        '3', '4', '1', '5', '0', '7', '9', '9', '3', '4', '1', '3', '2', '7', '1', '0',
        '0', '3', '7', '8', '2', '6', '9', '3', '6', '1', '7', '3', '7', '7', '8', '9',
        '8', '0', '4', '4', '4', '9', '6', '8', '2', '9', '2', '7', '6', '4', '7', '5',
        '0', '9', '4', '6', '6', '4', '9', '0', '1', '7', '9', '7', '7', '5', '8', '7',
        '2', '0', '7', '0', '9', '6', '3', '3', '0', '2', '8', '6', '4', '1', '6', '6',
        '9', '2', '8', '8', '7', '9', '1', '0', '9', '4', '6', '5', '5', '5', '5', '4',
        '7', '8', '5', '1', '9', '4', '0', '4', '0', '2', '6', '3', '0', '6', '5', '7',
        '4', '8', '8', '6', '7', '1', '5', '0', '5', '8', '2', '0', '6', '8', '1', '9',
        '0', '8', '9', '0', '2', '0', '0', '0', '7', '0', '8', '3', '8', '3', '6', '7',
        '6', '2', '7', '3', '8', '5', '4', '8', '4', '5', '8', '1', '7', '7', '1', '1',
        '5', '3', '1', '7', '6', '4', '4', '7', '5', '7', '3', '0', '2', '7', '0', '0',
        '6', '9', '8', '5', '5', '5', '7', '1', '3', '6', '6', '9', '5', '9', '6', '2',
        '2', '8', '4', '2', '9', '1', '4', '8', '1', '9', '8', '6', '0', '8', '3', '4',
        '9', '3', '6', '4', '7', '5', '2', '9', '2', '7', '1', '9', '0', '7', '4', '1',
        '6', '8', '4', '4', '4', '3', '6', '5', '5', '1', '0', '7', '0', '4', '3', '4',
        '2', '7', '1', '1', '5', '5', '9', '6', '9', '9', '5', '0', '8', '0', '9', '3',
        '0', '4', '2', '8', '8', '0', '1', '7', '7', '9', '0', '4', '1', '7', '4', '4',
        '9', '7', '7', '9', '2',
    ];
    assert(tb@ =~= bound_digits()) by {
        reveal(bound_digits);
    }
    let len: usize = if nd > 309 {
        nd
    } else {
        309
    };
    let ghost a = pad_zeros(sig, len as nat);
    let ghost b = pad_zeros(bound_digits(), len as nat);
    proof {
        crate::decimal::lemma_bound_digits();
        crate::decimal::lemma_pad_zeros(sig, len as nat);
        crate::decimal::lemma_pad_zeros(bound_digits(), len as nat);
    }
    let mut k: usize = 0;
    while k < len
        invariant
            k <= len,
            len as nat == (if sig.len() > 309 {
                sig.len()
            } else {
                309
            }),
            len == a.len(),
            len == b.len(),
            z + nd == d@.len(),
            d@.len() <= usize::MAX,
            sig == d@.skip(z as int),
            nd == sig.len(),
            tb@ == bound_digits(),
            bound_digits().len() == 309,
            a == pad_zeros(sig, len as nat),
            b == pad_zeros(bound_digits(), len as nat),
            all_digits(a),
            all_digits(b),
            forall|j: int| 0 <= j < k ==> #[trigger] a[j] == b[j],
        decreases len - k,
    {
        let ca = if k < nd {
            d[z + k]
        } else {
            '0'
        };
        let cb = if k < 309 {
            tb[k]
        } else {
            '0'
        };
        assert(ca == a[k as int]);
        assert(cb == b[k as int]);
        if ca != cb {
            proof {
                assert(a.take(k as int) =~= b.take(k as int));
                crate::decimal::lemma_dv_first_difference(a, b, k as int);
            }
            return ca < cb;
        }
        k = k + 1;
    }
    assert(a =~= b);
    false
}

fn push_slice_range(acc: &mut Vec<char>, t: &[char], from: usize, to: usize)
    requires
        from <= to <= t@.len(),
    ensures
        final(acc)@ == old(acc)@ + t@.subrange(from as int, to as int),
{
    let mut i = from;
    while i < to
        invariant
            from <= i <= to <= t@.len(),
            acc@ == old(acc)@ + t@.subrange(from as int, i as int),
        decreases to - i,
    {
        acc.push(t[i]);
        i = i + 1;
        assert(acc@ =~= old(acc)@ + t@.subrange(from as int, i as int));
    }
}

/// The backslash escapes of a bare token decoded.
fn decode_relaxed_exec(t: &[char]) -> (r: Vec<char>)
    ensures
        r@ == decode_relaxed(t@),
{
    let n = t.len();
    let mut acc: Vec<char> = Vec::new();
    let mut i: usize = 0;
    while i < n
        invariant
            n == t@.len(),
            0 <= i <= n,
            decode_relaxed(t@) == dec(t@, i as int, acc@),
        decreases n - i,
    {
        let c = t[i];
        if c != '\\' {
            acc.push(c);
            i = i + 1;
        } else if i + 1 >= n {
            acc.push('\\');
            return acc;
        } else {
            let e = t[i + 1];
            match simple_escape_exec(e) {
                Some(x) => {
                    acc.push(x);
                    i = i + 2;
                },
                None => {
                    if e == 'u' {
                        let end = if n - i >= 6 {
                            i + 6
                        } else {
                            n
                        };
                        let ghost d = t@.subrange(i + 2, end as int);
                        let mut decoded: Option<char> = None;
                        if end - (i + 2) == 4 {
                            match radix16_exec(t, i + 2, end) {
                                Some(code) => {
                                    proof {
                                        lemma_radix16_bound(d);
                                    }
                                    decoded = scalar_of_exec(code);
                                },
                                None => {},
                            }
                        }
                        match decoded {
                            Some(x) => {
                                acc.push(x);
                            },
                            None => {
                                let ghost before = acc@;
                                acc.push('\\');
                                acc.push('u');
                                push_slice_range(&mut acc, t, i + 2, end);
                                assert(acc@ =~= before + seq!['\\', 'u'] + d);
                            },
                        }
                        i = end;
                    } else {
                        acc.push('\\');
                        acc.push(e);
                        i = i + 2;
                    }
                },
            }
        }
    }
    acc
}

fn word_is(t: &[char], w: &str) -> (r: bool)
    ensures
        r == eq_ignore_case(t@, w@),
{
    let tt = string_from_chars(t);
    eq_ignore_ascii_case(&tt, w)
}

/// The value a bare token stands for.
fn classify_exec(t: &[char]) -> (v: JsonValue)
    ensures
        v@ == classify(t@),
{
    if word_is(t, "true") {
        return JsonValue::Bool(true);
    }
    if word_is(t, "false") {
        return JsonValue::Bool(false);
    }
    if word_is(t, "null") || word_is(t, "none") {
        return JsonValue::Null;
    }
    match parse_i64_exec(t) {
        Some(v) => {
            if v < 0 {
                return JsonValue::Number(JsonNumber::NegInt(v));
            } else {
                return JsonValue::Number(JsonNumber::PosInt(v as u64));
            }
        },
        None => {},
    }
    match parse_unsigned_chars(t, u64::MAX) {
        Some(v) => {
            return JsonValue::Number(JsonNumber::PosInt(v));
        },
        None => {},
    }
    if float_syntax_exec(t) && float_finite_exec(t) {
        return JsonValue::Number(JsonNumber::Float(string_from_chars(t)));
    }
    let d = decode_relaxed_exec(t);
    JsonValue::String(string_from_chars(&d))
}

/// A bare value at `j`.
fn parse_bare_exec(s: &[char], offs: &[usize], j: usize) -> (r: Result<(JsonValue, usize), RelaxedError>)
    requires
        offsets_ok(s@, offs@),
        j <= s@.len(),
    ensures
        match r {
            Ok((v, k)) => parse_bare(s@, j as int) == Ok::<(JsonView, int), RErr>((v@, k as int))
                && j < k <= s@.len(),
            Err(e) => parse_bare(s@, j as int) == Err::<(JsonView, int), RErr>(e@),
        },
{
    let k = bare_scan_exec(s, j);
    let raw = copy_range(s, j, k);
    let t = trim_chars(&raw);
    if t.len() == 0 {
        return Err(RelaxedError::ExpectedValue { at: offs[j] });
    }
    proof {
        if k == j {
            assert(raw@ =~= Seq::<char>::empty());
            assert(trim(raw@) =~= Seq::<char>::empty());
        }
    }
    Ok((classify_exec(&t), k))
}


// ---------------------------------------------------------------------------
// Values, objects and arrays
// ---------------------------------------------------------------------------

/// A value at `i` (after whitespace): an object, an array, a quoted string or a bare value.
pub open spec fn parse_value(s: Seq<char>, i: int) -> Result<(JsonView, int), RErr>
    decreases s.len() - i, 0int,
{
    if !(0 <= i <= s.len()) {
        Err(RErr::ExpectedValueAtEnd)
    } else {
        let j = skip_ws(s, i);
        if !(i <= j < s.len()) {
            Err(RErr::ExpectedValueAtEnd)
        } else if s[j] == '{' {
            match obj_members(s, j + 1, Seq::empty()) {
                Ok((m, k)) => Ok((JsonView::Object(m), k)),
                Err(e) => Err(e),
            }
        } else if s[j] == '[' {
            match arr_members(s, j + 1, Seq::empty()) {
                Ok((a, k)) => Ok((JsonView::Array(a), k)),
                Err(e) => Err(e),
            }
        } else if s[j] == '"' || s[j] == '\'' {
            match qstr(s, s[j], j + 1, Seq::empty()) {
                Ok((t, k)) => Ok((JsonView::Str(t), k)),
                Err(e) => Err(e),
            }
        } else {
            parse_bare(s, j)
        }
    }
}

/// The members of an object after its `{`, from `i` on, with `m` read so far.
pub open spec fn obj_members(s: Seq<char>, i: int, m: Seq<(Seq<char>, JsonView)>) -> Result<
    (Seq<(Seq<char>, JsonView)>, int),
    RErr,
>
    decreases s.len() - i, 1int,
{
    if !(0 <= i <= s.len()) {
        Err(RErr::Unterminated { close: '}' })
    } else {
        let j1 = skip_ws(s, i);
        if j1 < s.len() && s[j1] == '}' {
            Ok((m, j1 + 1))
        } else {
            match parse_key(s, j1) {
                Err(e) => Err(e),
                Ok((key, j2)) => {
                    let j3 = skip_ws(s, j2);
                    match expect_char(s, j3, ':') {
                        Err(e) => Err(e),
                        Ok(j4) => {
                            let j5 = skip_ws(s, j4);
                            if !(i <= j5 <= s.len()) {
                                Err(RErr::Unterminated { close: '}' })
                            } else {
                                match parse_value(s, j5) {
                                    Err(e) => Err(e),
                                    Ok((v, j6)) => {
                                        let m2 = obj_insert(m, key, v);
                                        let j7 = skip_ws(s, j6);
                                        if !(0 <= j7 < s.len()) {
                                            Err(RErr::Unterminated { close: '}' })
                                        } else if s[j7] == ',' {
                                            if i < j7 + 1 {
                                                obj_members(s, j7 + 1, m2)
                                            } else {
                                                Err(RErr::Unterminated { close: '}' })
                                            }
                                        } else if s[j7] == '}' {
                                            Ok((m2, j7 + 1))
                                        } else {
                                            Err(
                                                RErr::ExpectedSeparator {
                                                    at: bpos(s, j7),
                                                    found: lead_byte(s[j7]),
                                                    close: '}',
                                                },
                                            )
                                        }
                                    },
                                }
                            }
                        },
                    }
                },
            }
        }
    }
}

/// The elements of an array after its `[`, from `i` on, with `a` read so far.
pub open spec fn arr_members(s: Seq<char>, i: int, a: Seq<JsonView>) -> Result<(Seq<JsonView>, int), RErr>
    decreases s.len() - i, 1int,
{
    if !(0 <= i <= s.len()) {
        Err(RErr::Unterminated { close: ']' })
    } else {
        let j1 = skip_ws(s, i);
        if j1 < s.len() && s[j1] == ']' {
            Ok((a, j1 + 1))
        } else if !(i <= j1 <= s.len()) {
            Err(RErr::Unterminated { close: ']' })
        } else {
            match parse_value(s, j1) {
                Err(e) => Err(e),
                Ok((v, j2)) => {
                    let a2 = a.push(v);
                    let j3 = skip_ws(s, j2);
                    if !(0 <= j3 < s.len()) {
                        Err(RErr::Unterminated { close: ']' })
                    } else if s[j3] == ',' {
                        if i < j3 + 1 {
                            arr_members(s, j3 + 1, a2)
                        } else {
                            Err(RErr::Unterminated { close: ']' })
                        }
                    } else if s[j3] == ']' {
                        Ok((a2, j3 + 1))
                    } else {
                        Err(
                            RErr::ExpectedSeparator {
                                at: bpos(s, j3),
                                found: lead_byte(s[j3]),
                                close: ']',
                            },
                        )
                    }
                },
            }
        }
    }
}

/// The relaxed syntax: one object, with nothing but whitespace around it.
pub open spec fn parse_root(s: Seq<char>) -> Result<Seq<(Seq<char>, JsonView)>, RErr> {
    let j = skip_ws(s, 0);
    match expect_char(s, j, '{') {
        Err(e) => Err(e),
        Ok(j1) => match obj_members(s, j1, Seq::empty()) {
            Err(e) => Err(e),
            Ok((m, k)) => {
                let k2 = skip_ws(s, k);
                if k2 != s.len() {
                    Err(RErr::TrailingContent { at: bpos(s, k2), rest: trim(s.skip(k2)) })
                } else {
                    Ok(m)
                }
            },
        },
    }
}

fn parse_value_exec(s: &[char], offs: &[usize], i: usize) -> (r: Result<(JsonValue, usize), RelaxedError>)
    requires
        offsets_ok(s@, offs@),
        i <= s@.len(),
    ensures
        match r {
            Ok((v, k)) => parse_value(s@, i as int) == Ok::<(JsonView, int), RErr>((v@, k as int))
                && i < k <= s@.len(),
            Err(e) => parse_value(s@, i as int) == Err::<(JsonView, int), RErr>(e@),
        },
    decreases s@.len() - i, 0int,
{
    let j = skip_ws_exec(s, i);
    if j >= s.len() {
        return Err(RelaxedError::ExpectedValueAtEnd);
    }
    let c = s[j];
    if c == '{' {
        match obj_members_exec(s, offs, j + 1) {
            Ok((m, k)) => {
                let v = JsonValue::Object(m);
                proof {
                    crate::json::lemma_view_unfold(v);
                }
                Ok((v, k))
            },
            Err(e) => Err(e),
        }
    } else if c == '[' {
        match arr_members_exec(s, offs, j + 1) {
            Ok((a, k)) => {
                let v = JsonValue::Array(a);
                proof {
                    crate::json::lemma_view_unfold(v);
                }
                Ok((v, k))
            },
            Err(e) => Err(e),
        }
    } else if c == '"' || c == '\'' {
        match qstr_exec(s, offs, c, j + 1) {
            Ok((t, k)) => Ok((JsonValue::String(string_from_chars(&t)), k)),
            Err(e) => Err(e),
        }
    } else {
        parse_bare_exec(s, offs, j)
    }
}

fn obj_members_exec(s: &[char], offs: &[usize], i0: usize) -> (r: Result<(Vec<(String, JsonValue)>, usize), RelaxedError>)
    requires
        offsets_ok(s@, offs@),
        i0 <= s@.len(),
    ensures
        match r {
            Ok((m, k)) => obj_members(s@, i0 as int, Seq::empty()) == Ok::<
                (Seq<(Seq<char>, JsonView)>, int),
                RErr,
            >((entries_view(m@), k as int)) && i0 < k <= s@.len(),
            Err(e) => obj_members(s@, i0 as int, Seq::empty()) == Err::<
                (Seq<(Seq<char>, JsonView)>, int),
                RErr,
            >(e@),
        },
    decreases s@.len() - i0, 1int,
{
    let n = s.len();
    let mut m: Vec<(String, JsonValue)> = Vec::new();
    let mut i = i0;
    assert(entries_view(m@) =~= Seq::<(Seq<char>, JsonView)>::empty());
    loop
        invariant
            offsets_ok(s@, offs@),
            n == s@.len(),
            i0 <= i <= n,
            obj_members(s@, i0 as int, Seq::empty()) == obj_members(s@, i as int, entries_view(m@)),
        decreases n - i,
    {
        let j1 = skip_ws_exec(s, i);
        if j1 < n && s[j1] == '}' {
            return Ok((m, j1 + 1));
        }
        let (key, j2) = match parse_key_exec(s, offs, j1) {
            Ok(x) => x,
            Err(e) => {
                return Err(e);
            },
        };
        let j3 = skip_ws_exec(s, j2);
        let j4 = match expect_exec(s, offs, j3, ':') {
            Ok(x) => x,
            Err(e) => {
                return Err(e);
            },
        };
        let j5 = skip_ws_exec(s, j4);
        let (v, j6) = match parse_value_exec(s, offs, j5) {
            Ok(x) => x,
            Err(e) => {
                return Err(e);
            },
        };
        let k = string_from_chars(&key);
        object_insert(&mut m, k, v);
        let j7 = skip_ws_exec(s, j6);
        if j7 >= n {
            return Err(RelaxedError::Unterminated { close: '}' });
        }
        if s[j7] == ',' {
            i = j7 + 1;
        } else if s[j7] == '}' {
            return Ok((m, j7 + 1));
        } else {
            return Err(
                RelaxedError::ExpectedSeparator { at: offs[j7], found: first_byte(s[j7]), close: '}' },
            );
        }
    }
}

fn arr_members_exec(s: &[char], offs: &[usize], i0: usize) -> (r: Result<(Vec<JsonValue>, usize), RelaxedError>)
    requires
        offsets_ok(s@, offs@),
        i0 <= s@.len(),
    ensures
        match r {
            Ok((a, k)) => arr_members(s@, i0 as int, Seq::empty()) == Ok::<(Seq<JsonView>, int), RErr>(
                (values_view(a@), k as int),
            ) && i0 < k <= s@.len(),
            Err(e) => arr_members(s@, i0 as int, Seq::empty()) == Err::<(Seq<JsonView>, int), RErr>(
                e@,
            ),
        },
    decreases s@.len() - i0, 1int,
{
    let n = s.len();
    let mut a: Vec<JsonValue> = Vec::new();
    let mut i = i0;
    assert(values_view(a@) =~= Seq::<JsonView>::empty());
    loop
        invariant
            offsets_ok(s@, offs@),
            n == s@.len(),
            i0 <= i <= n,
            arr_members(s@, i0 as int, Seq::empty()) == arr_members(s@, i as int, values_view(a@)),
        decreases n - i,
    {
        let j1 = skip_ws_exec(s, i);
        if j1 < n && s[j1] == ']' {
            return Ok((a, j1 + 1));
        }
        let (v, j2) = match parse_value_exec(s, offs, j1) {
            Ok(x) => x,
            Err(e) => {
                return Err(e);
            },
        };
        let ghost before = values_view(a@);
        let ghost vv = v@;
        a.push(v);
        assert(values_view(a@) =~= before.push(vv));
        let j3 = skip_ws_exec(s, j2);
        if j3 >= n {
            return Err(RelaxedError::Unterminated { close: ']' });
        }
        if s[j3] == ',' {
            i = j3 + 1;
        } else if s[j3] == ']' {
            return Ok((a, j3 + 1));
        } else {
            return Err(
                RelaxedError::ExpectedSeparator { at: offs[j3], found: first_byte(s[j3]), close: ']' },
            );
        }
    }
}

/// The relaxed syntax over the characters `s`.
fn parse_root_exec(s: &[char], offs: &[usize]) -> (r: Result<Vec<(String, JsonValue)>, RelaxedError>)
    requires
        offsets_ok(s@, offs@),
    ensures
        match r {
            Ok(m) => parse_root(s@) == Ok::<Seq<(Seq<char>, JsonView)>, RErr>(entries_view(m@)),
            Err(e) => parse_root(s@) == Err::<Seq<(Seq<char>, JsonView)>, RErr>(e@),
        },
{
    let j = skip_ws_exec(s, 0);
    let j1 = match expect_exec(s, offs, j, '{') {
        Ok(x) => x,
        Err(e) => {
            return Err(e);
        },
    };
    let (m, k) = match obj_members_exec(s, offs, j1) {
        Ok(x) => x,
        Err(e) => {
            return Err(e);
        },
    };
    let k2 = skip_ws_exec(s, k);
    if k2 != s.len() {
        let rest = copy_range(s, k2, s.len());
        assert(rest@ =~= s@.skip(k2 as int));
        let t = trim_chars(&rest);
        return Err(RelaxedError::TrailingContent { at: offs[k2], rest: string_from_chars(&t) });
    }
    Ok(m)
}


// ---------------------------------------------------------------------------
// Strict JSON
// ---------------------------------------------------------------------------

#[verifier::external_type_specification]
#[verifier::external_body]
pub struct ExSerdeJsonValue(serde_json::Value);

/// What `serde_json::from_str::<serde_json::Value>` reads from a text, where it reads a
/// value.
pub uninterp spec fn strict_json(text: Seq<char>) -> Option<JsonView>;

/// A `serde_json::Value` as a `JsonValue`, variant by variant: an integer number that fits
/// `u64` or `i64` becomes one, any other number keeps the text serde_json writes for it.
#[verifier::external_body]
fn json_value_from_serde(v: serde_json::Value) -> JsonValue {
    match v {
        serde_json::Value::Null => JsonValue::Null,
        serde_json::Value::Bool(b) => JsonValue::Bool(b),
        serde_json::Value::Number(n) => JsonValue::Number(match (n.as_u64(), n.as_i64()) {
            (Some(u), _) => JsonNumber::PosInt(u),
            (None, Some(i)) => JsonNumber::NegInt(i),
            (None, None) => JsonNumber::Float(n.to_string()),
        }),
        serde_json::Value::String(s) => JsonValue::String(s),
        serde_json::Value::Array(a) => JsonValue::Array(a.into_iter().map(json_value_from_serde).collect()),
        serde_json::Value::Object(m) => JsonValue::Object(m.into_iter().map(|(k, x)| (k, json_value_from_serde(x))).collect()),
    }
}

/// Reads `text` as strict JSON with `serde_json::from_str::<serde_json::Value>`; `None`
/// where serde_json refuses it. What it reads is given the name `strict_json`.
#[verifier::external_body]
pub(crate) fn parse_strict_json(text: &str) -> (r: Option<JsonValue>)
    ensures
        match r {
            Some(v) => strict_json(text@) == Some(v@),
            None => strict_json(text@) is None,
        },
{
    serde_json::from_str::<serde_json::Value>(text).ok().map(json_value_from_serde)
}

// ---------------------------------------------------------------------------
// Tool arguments
// ---------------------------------------------------------------------------

/// Why tool arguments were refused.
pub enum ArgumentsError {
    /// Strict JSON that is neither an object nor null.
    NotAnObject(JsonValue),
    /// Neither strict JSON nor the relaxed object syntax.
    Relaxed(RelaxedError),
}

pub enum ArgsErr {
    NotAnObject(JsonView),
    Relaxed(RErr),
}

impl View for ArgumentsError {
    type V = ArgsErr;

    open spec fn view(&self) -> ArgsErr {
        match self {
            ArgumentsError::NotAnObject(v) => ArgsErr::NotAnObject(v@),
            ArgumentsError::Relaxed(e) => ArgsErr::Relaxed(e@),
        }
    }
}

/// Tool arguments: nothing (after trimming) is no arguments; strict JSON must be an object
/// or null; anything else is read with the relaxed object syntax.
pub open spec fn spec_parse_arguments(raw: Seq<char>) -> Result<Seq<(Seq<char>, JsonView)>, ArgsErr> {
    let t = trim(raw);
    if t.len() == 0 {
        Ok(Seq::empty())
    } else {
        spec_arguments_from(t, strict_json(t))
    }
}

/// The arguments that text `t` gives when strict JSON read `strict` from it: an object is
/// taken as it is, null is no arguments, any other value is refused, and text that is no
/// strict JSON is read with the relaxed object syntax.
pub open spec fn spec_arguments_from(t: Seq<char>, strict: Option<JsonView>) -> Result<
    Seq<(Seq<char>, JsonView)>,
    ArgsErr,
> {
    match strict {
        Some(JsonView::Object(m)) => Ok(m),
        Some(JsonView::Null) => Ok(Seq::empty()),
        Some(other) => Err(ArgsErr::NotAnObject(other)),
        None => match parse_root(t) {
            Ok(m) => Ok(m),
            Err(e) => Err(ArgsErr::Relaxed(e)),
        },
    }
}

pub open spec fn opt_json(o: Option<JsonValue>) -> Option<JsonView> {
    match o {
        Some(v) => Some(v@),
        None => None,
    }
}

/// Whether reading `raw` with the relaxed syntax would have to cut a character apart.
pub open spec fn spec_relaxed_splits(raw: Seq<char>) -> bool {
    parse_root(trim(raw)) == Err::<Seq<(Seq<char>, JsonView)>, RErr>(RErr::SplitsCharacter)
}

/// Whether the relaxed syntax would have to cut a character of `raw` apart.
pub fn relaxed_arguments_split_character(raw: &str) -> (r: bool)
    requires
        4 * raw@.len() <= usize::MAX,
    ensures
        r == spec_relaxed_splits(raw@),
{
    let chars = chars_of(raw);
    let t = trim_chars(&chars);
    let offs = byte_offsets(&t);
    match parse_root_exec(&t, &offs) {
        Err(RelaxedError::SplitsCharacter) => true,
        _ => false,
    }
}

/// Reads `--arguments-json`: strict JSON, or the relaxed object syntax PowerShell forwards.
pub fn parse_object_argument(raw: &str) -> (r: Result<Vec<(String, JsonValue)>, ArgumentsError>)
    requires
        4 * raw@.len() <= usize::MAX,
    ensures
        match r {
            Ok(m) => spec_parse_arguments(raw@) == Ok::<Seq<(Seq<char>, JsonView)>, ArgsErr>(
                entries_view(m@),
            ),
            Err(e) => spec_parse_arguments(raw@) == Err::<Seq<(Seq<char>, JsonView)>, ArgsErr>(e@),
        },
{
    let chars = chars_of(raw);
    let t = trim_chars(&chars);
    if t.len() == 0 {
        let m: Vec<(String, JsonValue)> = Vec::new();
        assert(entries_view(m@) =~= Seq::<(Seq<char>, JsonView)>::empty());
        return Ok(m);
    }
    let text = string_from_chars(&t);
    let strict = parse_strict_json(&text);
    arguments_from_strict(&text, strict)
}

/// The arguments that `text` gives when strict JSON read `strict` from it (`None` where
/// strict JSON refused it).
pub fn arguments_from_strict(text: &str, strict: Option<JsonValue>) -> (r: Result<
    Vec<(String, JsonValue)>,
    ArgumentsError,
>)
    requires
        4 * text@.len() <= usize::MAX,
    ensures
        match r {
            Ok(m) => spec_arguments_from(text@, opt_json(strict)) == Ok::<
                Seq<(Seq<char>, JsonView)>,
                ArgsErr,
            >(entries_view(m@)),
            Err(e) => spec_arguments_from(text@, opt_json(strict)) == Err::<
                Seq<(Seq<char>, JsonView)>,
                ArgsErr,
            >(e@),
        },
{
    match strict {
        Some(JsonValue::Object(m)) => {
            proof {
                crate::json::lemma_view_unfold(JsonValue::Object(m));
            }
            return Ok(m);
        },
        Some(JsonValue::Null) => {
            let m: Vec<(String, JsonValue)> = Vec::new();
            assert(entries_view(m@) =~= Seq::<(Seq<char>, JsonView)>::empty());
            return Ok(m);
        },
        Some(other) => {
            proof {
                crate::json::lemma_view_unfold(other);
            }
            return Err(ArgumentsError::NotAnObject(other));
        },
        None => {},
    }
    let t = chars_of(text);
    let offs = byte_offsets(&t);
    match parse_root_exec(&t, &offs) {
        Ok(m) => Ok(m),
        Err(e) => Err(ArgumentsError::Relaxed(e)),
    }
}


// ---------------------------------------------------------------------------
// Messages
// ---------------------------------------------------------------------------

/// The character a byte stands for on its own.
pub open spec fn byte_char(b: u8) -> char {
    b as char
}

/// What a refusal of the relaxed syntax reports.
pub open spec fn spec_relaxed_message(e: RErr) -> Seq<char> {
    match e {
        RErr::TrailingContent { at, rest } => "unexpected trailing content at byte "@ + decimal(
            at as nat,
        ) + ": "@ + rest,
        RErr::ExpectedSeparator { at, found, close } => "expected ',' or '"@ + seq![close]
            + "' at byte "@ + decimal(at as nat) + ", found '"@ + seq![byte_char(found)] + "'"@,
        RErr::Unterminated { close } => if close == '}' {
            "unterminated object literal"@
        } else {
            "unterminated array literal"@
        },
        RErr::ExpectedKey { at } => "expected object key at byte "@ + decimal(at as nat),
        RErr::ExpectedKeyAtEnd => "expected object key at end of input"@,
        RErr::ExpectedValue { at } => "expected value at byte "@ + decimal(at as nat),
        RErr::ExpectedValueAtEnd => "expected value at end of input"@,
        RErr::UnterminatedString => "unterminated quoted string"@,
        RErr::IncompleteUnicodeEscape { at } => "incomplete unicode escape at byte "@ + decimal(
            at as nat,
        ),
        RErr::InvalidUnicodeEscape { digits } => "invalid unicode escape '\\u"@ + digits
            + "': invalid digit found in string"@,
        RErr::InvalidUnicodeScalar { digits } => "invalid unicode scalar '\\u"@ + digits + "'"@,
        RErr::ExpectedChar { expected, at, found } => "expected '"@ + seq![expected]
            + "' at byte "@ + decimal(at as nat) + ", found '"@ + seq![byte_char(found)] + "'"@,
        RErr::ExpectedCharAtEnd { expected } => "expected '"@ + seq![expected]
            + "' at end of input"@,
        RErr::SplitsCharacter => "the relaxed syntax would cut a character apart"@,
    }
}

impl RelaxedError {
    pub fn message(&self) -> (m: String)
        ensures
            m@ == spec_relaxed_message(self@),
    {
        let mut v: Vec<char> = Vec::new();
        match self {
            RelaxedError::TrailingContent { at, rest } => {
                push_str(&mut v, "unexpected trailing content at byte ");
                push_decimal(&mut v, *at as u64);
                push_str(&mut v, ": ");
                push_str(&mut v, rest.as_str());
            },
            RelaxedError::ExpectedSeparator { at, found, close } => {
                push_str(&mut v, "expected ',' or '");
                v.push(*close);
                push_str(&mut v, "' at byte ");
                push_decimal(&mut v, *at as u64);
                push_str(&mut v, ", found '");
                v.push(*found as char);
                push_str(&mut v, "'");
            },
            RelaxedError::Unterminated { close } => {
                if *close == '}' {
                    push_str(&mut v, "unterminated object literal");
                } else {
                    push_str(&mut v, "unterminated array literal");
                }
            },
            RelaxedError::ExpectedKey { at } => {
                push_str(&mut v, "expected object key at byte ");
                push_decimal(&mut v, *at as u64);
            },
            RelaxedError::ExpectedKeyAtEnd => push_str(&mut v, "expected object key at end of input"),
            RelaxedError::ExpectedValue { at } => {
                push_str(&mut v, "expected value at byte ");
                push_decimal(&mut v, *at as u64);
            },
            RelaxedError::ExpectedValueAtEnd => push_str(&mut v, "expected value at end of input"),
            RelaxedError::UnterminatedString => push_str(&mut v, "unterminated quoted string"),
            RelaxedError::IncompleteUnicodeEscape { at } => {
                push_str(&mut v, "incomplete unicode escape at byte ");
                push_decimal(&mut v, *at as u64);
            },
            RelaxedError::InvalidUnicodeEscape { digits } => {
                push_str(&mut v, "invalid unicode escape '\\u");
                push_str(&mut v, digits.as_str());
                push_str(&mut v, "': invalid digit found in string");
            },
            RelaxedError::InvalidUnicodeScalar { digits } => {
                push_str(&mut v, "invalid unicode scalar '\\u");
                push_str(&mut v, digits.as_str());
                push_str(&mut v, "'");
            },
            RelaxedError::ExpectedChar { expected, at, found } => {
                push_str(&mut v, "expected '");
                v.push(*expected);
                push_str(&mut v, "' at byte ");
                push_decimal(&mut v, *at as u64);
                push_str(&mut v, ", found '");
                v.push(*found as char);
                push_str(&mut v, "'");
            },
            RelaxedError::ExpectedCharAtEnd { expected } => {
                push_str(&mut v, "expected '");
                v.push(*expected);
                push_str(&mut v, "' at end of input");
            },
            RelaxedError::SplitsCharacter => push_str(
                &mut v,
                "the relaxed syntax would cut a character apart",
            ),
        }
        string_from_chars(&v)
    }
}

/// What `--arguments-json` reports when the relaxed syntax refuses it too.
pub fn relaxed_failure_message(e: &RelaxedError) -> (m: String)
    ensures
        m@ == "failed to parse --arguments-json as strict JSON or relaxed PowerShell object syntax: "@
            + spec_relaxed_message(e@),
{
    let inner = e.message();
    concat2(
        "failed to parse --arguments-json as strict JSON or relaxed PowerShell object syntax: ",
        inner.as_str(),
    )
}

} // verus!

use vstd::prelude::*;
use crate::dynamic::{Dynamic, DynV, Union, Value, MapEntry, plain, dyns_view, entries_view,
    lemma_entries_view};
use crate::engine::Engine;
use crate::error::{EvalAltResult, RhaiResultOf};
use crate::keyed::{keys_in, key_sorted, find_key, put};
use crate::position::Position;
use crate::text::{str_chars, string_from_chars, string_of};
use crate::types::place_of;

verus! {

broadcast use vstd::std_specs::vec::group_vec_axioms;

/// White space between JSON tokens.
pub open spec fn is_json_ws(c: char) -> bool {
    c == ' ' || c == '\t' || c == '\n' || c == '\r'
}

/// The position of the first character at or after `i` that is not white space.
pub open spec fn skip_ws(s: Seq<char>, i: int) -> int
    decreases s.len() - i,
{
    if 0 <= i < s.len() && is_json_ws(s[i]) {
        skip_ws(s, i + 1)
    } else {
        i
    }
}

/// Skipping white space never goes back.
pub proof fn lemma_skip_ws(s: Seq<char>, i: int)
    ensures
        skip_ws(s, i) >= i,
        i <= s.len() ==> skip_ws(s, i) <= s.len(),
    decreases s.len() - i,
{
    if 0 <= i < s.len() && is_json_ws(s[i]) {
        lemma_skip_ws(s, i + 1);
    }
}

/// Is `c` a hexadecimal digit?
pub open spec fn is_hex(c: char) -> bool {
    ('0' <= c <= '9') || ('a' <= c <= 'f') || ('A' <= c <= 'F')
}

/// The value of a hexadecimal digit.
pub open spec fn hex_digit(c: char) -> nat {
    if '0' <= c <= '9' {
        (c as u32 - '0' as u32) as nat
    } else if 'a' <= c <= 'f' {
        (c as u32 - 'a' as u32 + 10) as nat
    } else {
        (c as u32 - 'A' as u32 + 10) as nat
    }
}

/// The value of a sequence of hexadecimal digits.
pub open spec fn hex_value(d: Seq<char>) -> nat
    decreases d.len(),
{
    if d.len() == 0 {
        0
    } else {
        hex_value(d.drop_last()) * 16 + hex_digit(d.last())
    }
}

/// Is `v` the code of a character (not a surrogate, at most `0x10FFFF`)?
pub open spec fn is_char_code(v: nat) -> bool {
    v <= 0x10FFFF && !(0xD800 <= v <= 0xDFFF)
}

/// The character whose code is given by the `n` hexadecimal digits at `i`, and the position
/// after them.
pub open spec fn hex_escape(s: Seq<char>, i: int, n: int) -> Option<(char, int)> {
    if 0 <= i && i + n <= s.len() && (forall|k: int| i <= k < i + n ==> is_hex(#[trigger] s[k]))
        && is_char_code(hex_value(s.subrange(i, i + n))) {
        Some((hex_value(s.subrange(i, i + n)) as char, i + n))
    } else {
        None
    }
}

/// The character of the escape sequence whose text starts at `i` (just after the `\`) in a
/// literal quoted by `quote`, and the position after it: `\t`, `\n`, `\r`, `\\`, the quote
/// itself, `\x` with two hexadecimal digits, `\u` with four, `\U` with eight.
pub open spec fn escape_at(s: Seq<char>, i: int, quote: char) -> Option<(char, int)> {
    if i < 0 || i >= s.len() {
        None
    } else if s[i] == 't' {
        Some(('\t', i + 1))
    } else if s[i] == 'n' {
        Some(('\n', i + 1))
    } else if s[i] == 'r' {
        Some(('\r', i + 1))
    } else if s[i] == '\\' {
        Some(('\\', i + 1))
    } else if s[i] == quote {
        Some((quote, i + 1))
    } else if s[i] == 'x' {
        hex_escape(s, i + 1, 2)
    } else if s[i] == 'u' {
        hex_escape(s, i + 1, 4)
    } else if s[i] == 'U' {
        hex_escape(s, i + 1, 8)
    } else {
        None
    }
}

/// An escape sequence ends after where it starts.
pub proof fn lemma_escape_end(s: Seq<char>, i: int, quote: char)
    ensures
        escape_at(s, i, quote) matches Some((_, e)) ==> i < e <= s.len(),
{
}

/// The characters of a quoted string whose text starts at `i` (just after the opening
/// quote), and the position after its closing quote.
pub open spec fn parse_string(s: Seq<char>, i: int) -> Option<(Seq<char>, int)>
    decreases s.len() - i,
{
    if i < 0 || i >= s.len() {
        None
    } else if s[i] == '"' {
        Some((Seq::empty(), i + 1))
    } else if s[i] == '\\' {
        match escape_at(s, i + 1, '"') {
            Some((c, j)) => if j > i {
                match parse_string(s, j) {
                    Some((rest, e)) => Some((seq![c] + rest, e)),
                    None => None,
                }
            } else {
                None
            },
            None => None,
        }
    } else {
        match parse_string(s, i + 1) {
            Some((rest, e)) => Some((seq![s[i]] + rest, e)),
            None => None,
        }
    }
}

/// The escaped form of a character in a double-quoted string: a backslash and a double
/// quote behind a backslash, a tab, a line feed and a carriage return as `\t`, `\n`, `\r`;
/// every other character as it is.
pub open spec fn quoted_char(c: char) -> Seq<char> {
    if c == '\\' || c == '"' {
        seq!['\\', c]
    } else if c == '\t' {
        seq!['\\', 't']
    } else if c == '\n' {
        seq!['\\', 'n']
    } else if c == '\r' {
        seq!['\\', 'r']
    } else {
        seq![c]
    }
}

/// The text of `t` inside a double-quoted string, each character in its escaped form.
pub open spec fn quoted_body(t: Seq<char>) -> Seq<char>
    decreases t.len(),
{
    if t.len() == 0 {
        Seq::empty()
    } else {
        quoted_char(t[0]) + quoted_body(t.drop_first())
    }
}

/// A quoted string gives back exactly the characters written in it: where the text at `i`
/// is `t` with its characters escaped (see [`quoted_char`]), followed by a closing double
/// quote, the string read there is `t`, and it ends after that quote. In particular `\\`
/// gives one backslash, `\"` a double quote and `\t` a tab.
pub proof fn lemma_parse_string_reads_back(s: Seq<char>, i: int, t: Seq<char>)
    requires
        0 <= i,
        i + quoted_body(t).len() < s.len(),
        s.subrange(i, i + quoted_body(t).len()) == quoted_body(t),
        s[i + quoted_body(t).len()] == '"',
    ensures
        parse_string(s, i) == Some((t, i + quoted_body(t).len() + 1)),
    decreases t.len(),
{
    let q = quoted_body(t);
    if t.len() > 0 {
        let rest = t.drop_first();
        let qr = quoted_body(rest);
        let k: int = quoted_char(t[0]).len() as int;
        assert(q == quoted_char(t[0]) + qr);
        assert(q.len() == k + qr.len());
        assert(s[i] == q[0]);
        if k == 2 {
            assert(s[i + 1] == q[1]);
        }
        assert(s.subrange(i + k, i + k + qr.len()) =~= qr) by {
            assert forall|m: int| 0 <= m < qr.len() implies #[trigger] s.subrange(i + k, i + k + qr.len())[m] == qr[m] by {
                assert(s[i + k + m] == s.subrange(i, i + q.len())[k + m]);
                assert(q[k + m] == qr[m]);
            }
        }
        lemma_parse_string_reads_back(s, i + k, rest);
        assert(seq![t[0]] + rest =~= t);
    }
}

/// A quoted string ends after where it starts.
pub proof fn lemma_parse_string_end(s: Seq<char>, i: int)
    ensures
        parse_string(s, i) matches Some((_, e)) ==> i < e <= s.len(),
    decreases s.len() - i,
{
    if 0 <= i < s.len() && s[i] != '"' {
        if s[i] == '\\' {
            lemma_escape_end(s, i + 1, '"');
            if let Some((c, j)) = escape_at(s, i + 1, '"') {
                if j > i {
                    lemma_parse_string_end(s, j);
                }
            }
        } else {
            lemma_parse_string_end(s, i + 1);
        }
    }
}

/// The character of a character literal whose text starts at `i` (just after the opening
/// quote), and the position after its closing quote.
pub open spec fn parse_char(s: Seq<char>, i: int) -> Option<(char, int)> {
    if 0 <= i && i + 1 < s.len() && s[i] != '\\' && s[i] != '\'' && s[i + 1] == '\'' {
        Some((s[i], i + 2))
    } else if 0 <= i && i < s.len() && s[i] == '\\' {
        match escape_at(s, i + 1, '\'') {
            Some((c, j)) => if 0 <= j < s.len() && s[j] == '\'' {
                Some((c, j + 1))
            } else {
                None
            },
            None => None,
        }
    } else {
        None
    }
}

/// Is `c` a decimal digit?
pub open spec fn is_digit(c: char) -> bool {
    '0' <= c <= '9'
}

/// The value of `c` as a digit in base `r` (2, 8, 10 or 16), if it is one.
pub open spec fn digit_value(c: char, r: nat) -> Option<nat> {
    if '0' <= c <= '9' && ((c as u32 - '0' as u32) as nat) < r {
        Some((c as u32 - '0' as u32) as nat)
    } else if r == 16 && 'a' <= c <= 'f' {
        Some((c as u32 - 'a' as u32 + 10) as nat)
    } else if r == 16 && 'A' <= c <= 'F' {
        Some((c as u32 - 'A' as u32 + 10) as nat)
    } else {
        None
    }
}

/// Can `c` stand in a number of base `r`: a digit, or the separator `_`?
pub open spec fn in_number(c: char, r: nat) -> bool {
    c == '_' || digit_value(c, r) is Some
}

/// The position of the first character at or after `i` that cannot stand in a number of
/// base `r`.
pub open spec fn run_end(s: Seq<char>, i: int, r: nat) -> int
    decreases s.len() - i,
{
    if 0 <= i < s.len() && in_number(s[i], r) {
        run_end(s, i + 1, r)
    } else {
        i
    }
}

/// The value of the digits of base `r` in `d`, separators skipped.
pub open spec fn run_value(d: Seq<char>, r: nat) -> nat
    decreases d.len(),
{
    if d.len() == 0 {
        0
    } else {
        match digit_value(d.last(), r) {
            Some(v) => run_value(d.drop_last(), r) * r + v,
            None => run_value(d.drop_last(), r),
        }
    }
}

/// The number of digits of base `r` in `d`.
pub open spec fn run_digits(d: Seq<char>, r: nat) -> nat
    decreases d.len(),
{
    if d.len() == 0 {
        0
    } else {
        run_digits(d.drop_last(), r) + if digit_value(d.last(), r) is Some {
            1nat
        } else {
            0nat
        }
    }
}

/// The base of a number that starts at `i`: 16, 8 or 2 after `0x`, `0o` or `0b` (either
/// case), else 10.
pub open spec fn radix_at(s: Seq<char>, i: int) -> nat {
    if 0 <= i && i + 1 < s.len() && s[i] == '0' {
        let c = s[i + 1];
        if c == 'x' || c == 'X' {
            16
        } else if c == 'o' || c == 'O' {
            8
        } else if c == 'b' || c == 'B' {
            2
        } else {
            10
        }
    } else {
        10
    }
}

/// A value below 2^64 read as the bits of an `i64`.
pub open spec fn wrap_i64(n: nat) -> int {
    if n > i64::MAX {
        n - 0x1_0000_0000_0000_0000
    } else {
        n as int
    }
}

/// The integer whose text starts at `i`, and the position after it: an optional minus sign,
/// then decimal digits (the first a digit, `_` as a separator after it), or `0x`, `0o` or
/// `0b` and at least one hexadecimal, octal or binary digit (with `_` as separators). A
/// decimal number must fit in an `i64`; one of another base must fit in 64 bits, which are
/// read as an `i64`, and its negation must fit in an `i64`.
pub open spec fn parse_number(s: Seq<char>, i: int) -> Option<(i64, int)> {
    let neg = 0 <= i < s.len() && s[i] == '-';
    let start = if neg { i + 1 } else { i };
    let r = radix_at(s, start);
    if r == 10 {
        if !(0 <= start < s.len() && is_digit(s[start])) {
            None
        } else {
            let end = run_end(s, start, 10);
            let n = run_value(s.subrange(start, end), 10);
            let v: int = if neg { -n } else { n as int };
            if i64::MIN <= v <= i64::MAX {
                Some((v as i64, end))
            } else {
                None
            }
        }
    } else {
        let ds = start + 2;
        let end = run_end(s, ds, r);
        let d = s.subrange(ds, end);
        if run_digits(d, r) == 0 || run_value(d, r) > u64::MAX {
            None
        } else {
            let w = wrap_i64(run_value(d, r));
            let v: int = if neg { -w } else { w };
            if i64::MIN <= v <= i64::MAX {
                Some((v as i64, end))
            } else {
                None
            }
        }
    }
}

/// Does the word `w` stand at position `i`?
pub open spec fn word_at(s: Seq<char>, i: int, w: Seq<char>) -> bool {
    0 <= i && i + w.len() <= s.len() && s.subrange(i, i + w.len()) == w
}

/// The position of the first character at or after `i` that is not white space.
fn skip_ws_exec(s: &Vec<char>, i: usize) -> (r: usize)
    requires
        i <= s@.len(),
    ensures
        r == skip_ws(s@, i as int),
        i <= r <= s@.len(),
{
    let mut j = i;
    proof {
        lemma_skip_ws(s@, i as int);
    }
    while j < s.len() && (s[j] == ' ' || s[j] == '\t' || s[j] == '\n' || s[j] == '\r')
        invariant
            i <= j <= s@.len(),
            skip_ws(s@, j as int) == skip_ws(s@, i as int),
        decreases s@.len() - j,
    {
        j += 1;
    }
    j
}

/// The character of a code (`char::from_u32`): `None` for a surrogate or a code beyond
/// `0x10FFFF`, as std documents.
#[verifier::external_body]
fn char_from_u32(v: u32) -> (r: Option<char>)
    ensures
        r == (if is_char_code(v as nat) {
            Some(v as char)
        } else {
            None
        }),
{
    char::from_u32(v)
}

/// The value of a hexadecimal digit.
fn hex_digit_exec(c: char) -> (r: u64)
    requires
        is_hex(c),
    ensures
        r == hex_digit(c),
        r < 16,
{
    if '0' <= c && c <= '9' {
        (c as u32 - '0' as u32) as u64
    } else if 'a' <= c && c <= 'f' {
        (c as u32 - 'a' as u32 + 10) as u64
    } else {
        (c as u32 - 'A' as u32 + 10) as u64
    }
}

/// Sixteen to the power `n`.
pub open spec fn pow16(n: nat) -> nat
    decreases n,
{
    if n == 0 {
        1
    } else {
        16 * pow16((n - 1) as nat)
    }
}

/// The character of the `n` hexadecimal digits at `i`.
fn hex_escape_exec(s: &Vec<char>, i: usize, n: usize) -> (r: Option<(char, usize)>)
    requires
        n <= 8,
    ensures
        match hex_escape(s@, i as int, n as int) {
            Some((c, e)) => r matches Some((c2, f)) && c2 == c && f == e,
            None => r is None,
        },
{
    if i > s.len() || n > s.len() - i {
        return None;
    }
    let mut v: u64 = 0;
    let mut k: usize = 0;
    proof {
        reveal_with_fuel(pow16, 9);
        assert(pow16(8) == 4294967296);
    }
    while k < n
        invariant
            k <= n <= 8,
            i + n <= s@.len(),
            s@.len() == s.len(),
            forall|m: int| i <= m < i + k ==> is_hex(#[trigger] s@[m]),
            v == hex_value(s@.subrange(i as int, i + k)),
            v < pow16(k as nat),
            pow16(k as nat) <= pow16(8),
            pow16(8) == 4294967296,
        decreases n - k,
    {
        let c = s[i + k];
        let hex = ('0' <= c && c <= '9') || ('a' <= c && c <= 'f') || ('A' <= c && c <= 'F');
        if !hex {
            return None;
        }
        let d = hex_digit_exec(c);
        proof {
            assert(s@.subrange(i as int, i + k + 1).drop_last() =~= s@.subrange(i as int, i + k));
            assert(s@.subrange(i as int, i + k + 1).last() == c);
            assert(pow16((k + 1) as nat) == 16 * pow16(k as nat));
            assert(v * 16 + d < pow16((k + 1) as nat)) by (nonlinear_arith)
                requires
                    v < pow16(k as nat),
                    d < 16,
                    pow16((k + 1) as nat) == 16 * pow16(k as nat),
            ;
            assert(pow16((k + 1) as nat) <= pow16(8)) by {
                lemma_pow16_mono((k + 1) as nat, 8);
            }
        }
        v = v * 16 + d;
        k += 1;
    }
    if v > 0x10FFFF {
        return None;
    }
    match char_from_u32(v as u32) {
        Some(c) => Some((c, i + n)),
        None => None,
    }
}

/// Powers of sixteen grow.
proof fn lemma_pow16_mono(a: nat, b: nat)
    requires
        a <= b,
    ensures
        pow16(a) <= pow16(b),
    decreases b,
{
    if a < b {
        lemma_pow16_mono(a, (b - 1) as nat);
    }
}

/// The character of the escape sequence whose text starts at `i`.
fn escape_at_exec(s: &Vec<char>, i: usize, quote: char) -> (r: Option<(char, usize)>)
    ensures
        match escape_at(s@, i as int, quote) {
            Some((c, e)) => r matches Some((c2, f)) && c2 == c && f == e,
            None => r is None,
        },
{
    if i >= s.len() {
        return None;
    }
    let c = s[i];
    if c == 't' {
        Some(('\t', i + 1))
    } else if c == 'n' {
        Some(('\n', i + 1))
    } else if c == 'r' {
        Some(('\r', i + 1))
    } else if c == '\\' {
        Some(('\\', i + 1))
    } else if c == quote {
        Some((quote, i + 1))
    } else if c == 'x' {
        hex_escape_exec(s, i + 1, 2)
    } else if c == 'u' {
        hex_escape_exec(s, i + 1, 4)
    } else if c == 'U' {
        hex_escape_exec(s, i + 1, 8)
    } else {
        None
    }
}

/// Parse a quoted string whose text starts at `i`.
fn parse_string_exec(s: &Vec<char>, i: usize) -> (r: Option<(Vec<char>, usize)>)
    ensures
        match parse_string(s@, i as int) {
            Some((t, e)) => r matches Some((u, f)) && u@ == t && f == e,
            None => r is None,
        },
{
    let mut acc: Vec<char> = Vec::new();
    let mut j = i;
    while j < s.len()
        invariant
            i <= j,
            match parse_string(s@, j as int) {
                Some((t, e)) => parse_string(s@, i as int) == Some((acc@ + t, e)),
                None => parse_string(s@, i as int) is None,
            },
        decreases s@.len() - j,
    {
        let c = s[j];
        if c == '"' {
            proof {
                assert(acc@ + Seq::<char>::empty() =~= acc@);
            }
            return Some((acc, j + 1));
        } else if c == '\\' {
            match escape_at_exec(s, j + 1, '"') {
                Some((x, k)) => {
                    proof {
                        lemma_escape_end(s@, j + 1, '"');
                    }
                    let ghost before = acc@;
                    acc.push(x);
                    proof {
                        match parse_string(s@, k as int) {
                            Some((t, e)) => {
                                assert(before + (seq![x] + t) =~= acc@ + t);
                            },
                            None => {},
                        }
                    }
                    j = k;
                },
                None => {
                    return None;
                },
            }
        } else {
            let ghost before = acc@;
            acc.push(c);
            proof {
                match parse_string(s@, j + 1) {
                    Some((t, e)) => {
                        assert(before + (seq![c] + t) =~= acc@ + t);
                    },
                    None => {},
                }
            }
            j = j + 1;
        }
    }
    None
}

/// Parse a character literal whose text starts at `i`.
fn parse_char_exec(s: &Vec<char>, i: usize) -> (r: Option<(char, usize)>)
    ensures
        match parse_char(s@, i as int) {
            Some((c, e)) => r matches Some((c2, f)) && c2 == c && f == e,
            None => r is None,
        },
{
    if i < s.len() && i + 1 < s.len() && s[i] != '\\' && s[i] != '\'' && s[i + 1] == '\'' {
        Some((s[i], i + 2))
    } else if i < s.len() && s[i] == '\\' {
        match escape_at_exec(s, i + 1, '\'') {
            Some((x, j)) => {
                proof {
                    lemma_escape_end(s@, i + 1, '\'');
                }
                if j < s.len() && s[j] == '\'' {
                    Some((x, j + 1))
                } else {
                    None
                }
            },
            None => None,
        }
    } else {
        None
    }
}

/// The run scanned up to a position ends where the run from its start does.
proof fn lemma_run_end(s: Seq<char>, a: int, j: int, r: nat)
    requires
        0 <= a <= j <= s.len(),
        forall|k: int| a <= k < j ==> #[trigger] in_number(s[k], r),
    ensures
        run_end(s, a, r) == run_end(s, j, r),
    decreases j - a,
{
    if a < j {
        lemma_run_end(s, a + 1, j, r);
    }
}

/// The value of a digit in base `r` (2, 8, 10 or 16).
fn digit_value_exec(c: char, r: u32) -> (out: Option<u32>)
    requires
        r == 2 || r == 8 || r == 10 || r == 16,
    ensures
        match digit_value(c, r as nat) {
            Some(v) => out == Some(v as u32),
            None => out is None,
        },
{
    if '0' <= c && c <= '9' && (c as u32 - '0' as u32) < r {
        Some(c as u32 - '0' as u32)
    } else if r == 16 && 'a' <= c && c <= 'f' {
        Some(c as u32 - 'a' as u32 + 10)
    } else if r == 16 && 'A' <= c && c <= 'F' {
        Some(c as u32 - 'A' as u32 + 10)
    } else {
        None
    }
}

/// The base of a number that starts at `i`.
fn radix_at_exec(s: &Vec<char>, i: usize) -> (r: u32)
    ensures
        r as nat == radix_at(s@, i as int),
{
    if i < s.len() && s.len() - i > 1 && s[i] == '0' {
        let c = s[i + 1];
        if c == 'x' || c == 'X' {
            16
        } else if c == 'o' || c == 'O' {
            8
        } else if c == 'b' || c == 'B' {
            2
        } else {
            10
        }
    } else {
        10
    }
}

/// Scans a run of digits of base `r` and separators from `a`: where it ends, its number of
/// digits (at most one, counted as a flag) and its value, `None` where that exceeds
/// `u64::MAX`.
fn scan_run(s: &Vec<char>, a: usize, r: u32) -> (out: (usize, bool, Option<u64>))
    requires
        a <= s@.len(),
        r == 2 || r == 8 || r == 10 || r == 16,
    ensures
        out.0 as int == run_end(s@, a as int, r as nat),
        out.1 == (run_digits(s@.subrange(a as int, out.0 as int), r as nat) > 0),
        match out.2 {
            Some(v) => v == run_value(s@.subrange(a as int, out.0 as int), r as nat),
            None => run_value(s@.subrange(a as int, out.0 as int), r as nat) > u64::MAX,
        },
{
    let mut j = a;
    let mut acc: u64 = 0;
    let mut big = false;
    let mut any = false;
    proof {
        assert(s@.subrange(a as int, a as int) =~= Seq::<char>::empty());
    }
    while j < s.len() && (s[j] == '_' || digit_value_exec(s[j], r).is_some())
        invariant
            a <= j <= s@.len(),
            r == 2 || r == 8 || r == 10 || r == 16,
            forall|k: int| a <= k < j ==> #[trigger] in_number(s@[k], r as nat),
            any == (run_digits(s@.subrange(a as int, j as int), r as nat) > 0),
            !big ==> acc == run_value(s@.subrange(a as int, j as int), r as nat),
            big ==> run_value(s@.subrange(a as int, j as int), r as nat) > u64::MAX,
        decreases s@.len() - j,
    {
        let ghost sub = s@.subrange(a as int, j as int + 1);
        let ghost prev = s@.subrange(a as int, j as int);
        proof {
            assert(sub.drop_last() =~= prev);
            assert(sub.last() == s@[j as int]);
        }
        let d = digit_value_exec(s[j], r);
        match d {
            Some(v) => {
                any = true;
                if !big {
                    let next: u128 = acc as u128 * r as u128 + v as u128;
                    if next > u64::MAX as u128 {
                        big = true;
                    } else {
                        acc = next as u64;
                    }
                } else {
                    proof {
                        let x = run_value(prev, r as nat);
                        assert(x * (r as nat) + (v as nat) >= x) by (nonlinear_arith)
                            requires
                                r >= 2,
                        ;
                    }
                }
            },
            None => {},
        }
        j += 1;
    }
    proof {
        lemma_run_end(s@, a as int, j as int, r as nat);
    }
    if big {
        (j, any, None)
    } else {
        (j, any, Some(acc))
    }
}

/// Parse an integer whose text starts at `i`.
fn parse_number_exec(s: &Vec<char>, i: usize) -> (r: Option<(i64, usize)>)
    requires
        i <= s@.len(),
    ensures
        match parse_number(s@, i as int) {
            Some((v, e)) => r matches Some((n, f)) && n == v && f == e,
            None => r is None,
        },
{
    let neg = i < s.len() && s[i] == '-';
    let start = if neg { i + 1 } else { i };
    let r = radix_at_exec(s, start);
    if r == 10 {
        if !(start < s.len() && '0' <= s[start] && s[start] <= '9') {
            return None;
        }
        let (end, _, value) = scan_run(s, start, 10);
        match value {
            None => None,
            Some(n) => {
                if neg {
                    if n > 9223372036854775808u64 {
                        None
                    } else if n == 9223372036854775808u64 {
                        Some((i64::MIN, end))
                    } else {
                        Some((-(n as i64), end))
                    }
                } else if n > 9223372036854775807u64 {
                    None
                } else {
                    Some((n as i64, end))
                }
            },
        }
    } else {
        let (end, any, value) = scan_run(s, start + 2, r);
        if !any {
            return None;
        }
        match value {
            None => None,
            Some(n) => {
                let w: i64 = if n > 9223372036854775807u64 {
                    (n - 9223372036854775808u64) as i64 - 9223372036854775807i64 - 1
                } else {
                    n as i64
                };
                if neg {
                    if w == i64::MIN {
                        None
                    } else {
                        Some((-w, end))
                    }
                } else {
                    Some((w, end))
                }
            },
        }
    }
}

/// Does the word `w` stand at position `i`?
fn word_at_exec(s: &Vec<char>, i: usize, w: &str) -> (r: bool)
    ensures
        r == word_at(s@, i as int, w@),
{
    let wv = str_chars(w);
    if i > s.len() || wv.len() > s.len() - i {
        return false;
    }
    let n = s.len();
    let mut k: usize = 0;
    while k < wv.len()
        invariant
            n == s@.len(),
            wv@ == w@,
            i <= s@.len(),
            i + wv@.len() <= s@.len(),
            k <= wv@.len(),
            forall|m: int| 0 <= m < k ==> s@[i + m] == wv@[m],
        decreases wv@.len() - k,
    {
        assert(i + k < n);
        if s[i + k] != wv[k] {
            proof {
                assert(s@.subrange(i as int, i + wv@.len())[k as int] != w@[k as int]);
            }
            return false;
        }
        k += 1;
    }
    assert(s@.subrange(i as int, i + wv@.len()) =~= w@);
    true
}

/// The keys of map entries.
pub open spec fn entry_keys(m: Seq<(Seq<char>, DynV)>) -> Seq<Seq<char>> {
    m.map_values(|e: (Seq<char>, DynV)| e.0)
}

/// Map entries with `(k, d)` inserted at the place of `k` among their (sorted) keys.
pub open spec fn insert_entry(m: Seq<(Seq<char>, DynV)>, k: Seq<char>, d: DynV) -> Seq<(Seq<char>, DynV)> {
    m.insert(place_of(entry_keys(m), k), (k, d))
}

/// The value whose text starts at `i`, and the position after it: an object map, an array,
/// a quoted string, a character literal, an integer, `true`, `false`, or `null` (the unit
/// value, and only where `has_null` is set).
pub open spec fn parse_value(s: Seq<char>, i: int, has_null: bool) -> Option<(DynV, int)>
    decreases s.len() - i, 3nat,
{
    if i < 0 || i >= s.len() {
        None
    } else if s[i] == '{' {
        match parse_object(s, i, has_null) {
            Some((m, e)) => Some((plain(Value::ObjectMap(m)), e)),
            None => None,
        }
    } else if s[i] == '[' {
        match parse_array(s, i, has_null) {
            Some((a, e)) => Some((plain(Value::Array(a)), e)),
            None => None,
        }
    } else if s[i] == '"' {
        match parse_string(s, i + 1) {
            Some((t, e)) => Some((plain(Value::Str(t)), e)),
            None => None,
        }
    } else if s[i] == '\'' {
        match parse_char(s, i + 1) {
            Some((c, e)) => Some((plain(Value::Char(c)), e)),
            None => None,
        }
    } else if s[i] == '-' || is_digit(s[i]) {
        match parse_number(s, i) {
            Some((n, e)) => Some((plain(Value::Int(n)), e)),
            None => None,
        }
    } else if word_at(s, i, seq!['t', 'r', 'u', 'e']) {
        Some((plain(Value::Bool(true)), i + 4))
    } else if word_at(s, i, seq!['f', 'a', 'l', 's', 'e']) {
        Some((plain(Value::Bool(false)), i + 5))
    } else if word_at(s, i, seq!['n', 'u', 'l', 'l']) && has_null {
        Some((plain(Value::Unit), i + 4))
    } else {
        None
    }
}

/// The entries of the object map whose `{` stands at `i`, in key order, and the position
/// after its `}`.
pub open spec fn parse_object(s: Seq<char>, i: int, has_null: bool) -> Option<(Seq<(Seq<char>, DynV)>, int)>
    decreases s.len() - i, 2nat,
{
    let j = skip_ws(s, i + 1);
    if !(0 <= i < j <= s.len()) {
        None
    } else if j < s.len() && s[j] == '}' {
        Some((Seq::empty(), j + 1))
    } else {
        parse_members(s, j, has_null, Seq::empty())
    }
}

/// The properties `"key": value` from `i` on, separated by commas (one may trail) and ended
/// by `}`, added to `acc` in key order (a key given twice is an error), and the position after
/// the `}`.
pub open spec fn parse_members(s: Seq<char>, i: int, has_null: bool, acc: Seq<(Seq<char>, DynV)>) -> Option<
    (Seq<(Seq<char>, DynV)>, int),
>
    decreases s.len() - i, 1nat,
{
    if !(0 <= i < s.len() && s[i] == '"') {
        None
    } else {
        match parse_string(s, i + 1) {
            None => None,
            Some((k, e1)) => {
                let j = skip_ws(s, e1);
                if !(i < j < s.len() && s[j] == ':') {
                    None
                } else {
                    let j2 = skip_ws(s, j + 1);
                    if !(i < j2 <= s.len()) {
                        None
                    } else {
                        match parse_value(s, j2, has_null) {
                            None => None,
                            Some((v, e2)) => {
                                if entry_keys(acc).contains(k) {
                                    None
                                } else {
                                    let acc2 = insert_entry(acc, k, v);
                                    let j3 = skip_ws(s, e2);
                                    if !(i < j3 < s.len()) {
                                        None
                                    } else if s[j3] == '}' {
                                        Some((acc2, j3 + 1))
                                    } else if s[j3] == ',' {
                                        let j4 = skip_ws(s, j3 + 1);
                                        if !(i < j4 <= s.len()) {
                                            None
                                        } else if j4 < s.len() && s[j4] == '}' {
                                            Some((acc2, j4 + 1))
                                        } else {
                                            parse_members(s, j4, has_null, acc2)
                                        }
                                    } else {
                                        None
                                    }
                                }
                            },
                        }
                    }
                }
            },
        }
    }
}

/// The items of the array whose `[` stands at `i`, and the position after its `]`.
pub open spec fn parse_array(s: Seq<char>, i: int, has_null: bool) -> Option<(Seq<DynV>, int)>
    decreases s.len() - i, 2nat,
{
    let j = skip_ws(s, i + 1);
    if !(0 <= i < j <= s.len()) {
        None
    } else if j < s.len() && s[j] == ']' {
        Some((Seq::empty(), j + 1))
    } else {
        parse_items(s, j, has_null, Seq::empty())
    }
}

/// The values from `i` on, separated by commas (one may trail) and ended by `]`, appended to
/// `acc`, and the position after the `]`.
pub open spec fn parse_items(s: Seq<char>, i: int, has_null: bool, acc: Seq<DynV>) -> Option<(Seq<DynV>, int)>
    decreases s.len() - i, 4nat,
{
    if !(0 <= i <= s.len()) {
        None
    } else {
        match parse_value(s, i, has_null) {
            None => None,
            Some((v, e)) => {
                let j3 = skip_ws(s, e);
                if !(i < j3 < s.len()) {
                    None
                } else if s[j3] == ']' {
                    Some((acc.push(v), j3 + 1))
                } else if s[j3] == ',' {
                    let j4 = skip_ws(s, j3 + 1);
                    if !(i < j4 <= s.len()) {
                        None
                    } else if j4 < s.len() && s[j4] == ']' {
                        Some((acc.push(v), j4 + 1))
                    } else {
                        parse_items(s, j4, has_null, acc.push(v))
                    }
                } else {
                    None
                }
            },
        }
    }
}

/// The entries of the object map that the whole text is (white space around it allowed),
/// if it is one.
pub open spec fn json_object(s: Seq<char>, has_null: bool) -> Option<Seq<(Seq<char>, DynV)>> {
    let i = skip_ws(s, 0);
    if 0 <= i < s.len() && s[i] == '{' {
        match parse_object(s, i, has_null) {
            Some((m, e)) => if skip_ws(s, e) == s.len() {
                Some(m)
            } else {
                None
            },
            None => None,
        }
    } else {
        None
    }
}

/// The abstract entries of string-keyed values.
pub open spec fn pairs_v(v: Seq<(String, Dynamic)>) -> Seq<(Seq<char>, DynV)> {
    v.map_values(|e: (String, Dynamic)| (e.0@, e.1@))
}

/// The keys of the abstract entries are the keys of the entries.
proof fn lemma_pairs_keys(v: Seq<(String, Dynamic)>)
    ensures
        entry_keys(pairs_v(v)) == keys_in(v),
{
    assert(entry_keys(pairs_v(v)) =~= keys_in(v));
}

/// Map entries from string-keyed values, in the same order.
fn to_map_entries(v: Vec<(String, Dynamic)>) -> (r: Vec<MapEntry>)
    ensures
        entries_view(r@) == pairs_v(v@),
{
    let ghost orig = v@;
    let mut src = v;
    let mut out: Vec<MapEntry> = Vec::new();
    while src.len() > 0
        invariant
            src@.len() <= orig.len(),
            src@ == orig.skip(orig.len() - src@.len()),
            out@.len() == orig.len() - src@.len(),
            forall|j: int| 0 <= j < out@.len() ==> (#[trigger] out@[j]).key@ == orig[j].0@ && out@[j].value@ == orig[j].1@,
        decreases src@.len(),
    {
        let ghost n = orig.len() - src@.len();
        let (k, d) = src.remove(0);
        proof {
            assert(src@ =~= orig.skip(n + 1));
        }
        out.push(MapEntry { key: k, value: d });
    }
    proof {
        lemma_entries_view(out@);
        assert(entries_view(out@) =~= pairs_v(orig));
    }
    out
}

/// Parse the value whose text starts at `i`.
fn value_exec(s: &Vec<char>, i: usize, has_null: bool) -> (r: Option<(Dynamic, usize)>)
    ensures
        match parse_value(s@, i as int, has_null) {
            Some((v, e)) => r matches Some((d, f)) && d@ == v && f == e,
            None => r is None,
        },
    decreases s@.len() - i, 3nat,
{
    if i >= s.len() {
        return None;
    }
    let c = s[i];
    if c == '{' {
        match object_exec(s, i, has_null) {
            Some((m, e)) => {
                let entries = to_map_entries(m);
                let d = Dynamic::from_union(Union::ObjectMap(entries));
                proof {
                    assert(d@ == plain(Value::ObjectMap(pairs_v(m@))));
                }
                Some((d, e))
            },
            None => None,
        }
    } else if c == '[' {
        match array_exec(s, i, has_null) {
            Some((a, e)) => Some((Dynamic::from_array(a), e)),
            None => None,
        }
    } else if c == '"' {
        match parse_string_exec(s, i + 1) {
            Some((t, e)) => Some((Dynamic::from_string(string_from_chars(&t)), e)),
            None => None,
        }
    } else if c == '\'' {
        match parse_char_exec(s, i + 1) {
            Some((ch, e)) => Some((Dynamic::from_char(ch), e)),
            None => None,
        }
    } else if c == '-' || ('0' <= c && c <= '9') {
        match parse_number_exec(s, i) {
            Some((n, e)) => Some((Dynamic::from_int(n), e)),
            None => None,
        }
    } else {
        proof {
            reveal_strlit("true");
            reveal_strlit("false");
            reveal_strlit("null");
            assert("true"@ =~= seq!['t', 'r', 'u', 'e']);
            assert("false"@ =~= seq!['f', 'a', 'l', 's', 'e']);
            assert("null"@ =~= seq!['n', 'u', 'l', 'l']);
        }
        if word_at_exec(s, i, "true") {
            Some((Dynamic::from_bool(true), i + 4))
        } else if word_at_exec(s, i, "false") {
            Some((Dynamic::from_bool(false), i + 5))
        } else if word_at_exec(s, i, "null") && has_null {
            Some((Dynamic::unit(), i + 4))
        } else {
            None
        }
    }
}

/// Parse the object map whose `{` stands at `i`.
fn object_exec(s: &Vec<char>, i: usize, has_null: bool) -> (r: Option<(Vec<(String, Dynamic)>, usize)>)
    requires
        i < s@.len(),
    ensures
        match parse_object(s@, i as int, has_null) {
            Some((m, e)) => r matches Some((v, f)) && pairs_v(v@) == m && key_sorted(v@) && f == e,
            None => r is None,
        },
    decreases s@.len() - i, 2nat,
{
    if i >= s.len() {
        return None;
    }
    let j = skip_ws_exec(s, i + 1);
    if j < s.len() && s[j] == '}' {
        let v: Vec<(String, Dynamic)> = Vec::new();
        proof {
            assert(pairs_v(v@) =~= Seq::<(Seq<char>, DynV)>::empty());
        }
        Some((v, j + 1))
    } else {
        let acc: Vec<(String, Dynamic)> = Vec::new();
        proof {
            assert(pairs_v(acc@) =~= Seq::<(Seq<char>, DynV)>::empty());
        }
        members_exec(s, j, has_null, acc)
    }
}

/// Parse properties from `i` on into `acc`.
fn members_exec(s: &Vec<char>, i: usize, has_null: bool, acc: Vec<(String, Dynamic)>) -> (r: Option<
    (Vec<(String, Dynamic)>, usize),
>)
    requires
        key_sorted(acc@),
    ensures
        match parse_members(s@, i as int, has_null, pairs_v(acc@)) {
            Some((m, e)) => r matches Some((v, f)) && pairs_v(v@) == m && key_sorted(v@) && f == e,
            None => r is None,
        },
    decreases s@.len() - i, 1nat,
{
    if !(i < s.len() && s[i] == '"') {
        return None;
    }
    let (key, e1) = match parse_string_exec(s, i + 1) {
        Some(x) => x,
        None => return None,
    };
    proof {
        lemma_parse_string_end(s@, i + 1);
    }
    let j = skip_ws_exec(s, e1);
    if !(i < j && j < s.len() && s[j] == ':') {
        return None;
    }
    let j2 = skip_ws_exec(s, j + 1);
    let (v, e2) = match value_exec(s, j2, has_null) {
        Some(x) => x,
        None => return None,
    };
    let key_s = string_from_chars(&key);
    proof {
        lemma_pairs_keys(acc@);
    }
    match find_key(&acc, key_s.as_str()) {
        Ok(_) => {
            proof {
                let ix = crate::keyed::index_of_key(acc@, key@);
                assert(entry_keys(pairs_v(acc@))[ix] == key@);
            }
            return None;
        },
        Err(p) => {
            let ghost a0 = acc@;
            let ghost kv = key_s;
            let ghost vv = v;
            let mut acc = acc;
            proof {
                assert(!entry_keys(pairs_v(a0)).contains(key@)) by {
                    if entry_keys(pairs_v(a0)).contains(key@) {
                        let ix = choose|ix: int| 0 <= ix < entry_keys(pairs_v(a0)).len() && entry_keys(pairs_v(a0))[ix] == key@;
                        assert(a0[ix].0@ == key@);
                    }
                }
            }
            put(&mut acc, key_s, v);
            proof {
                assert(acc@ == a0.insert(p as int, (kv, vv)));
                assert(pairs_v(acc@) =~= insert_entry(pairs_v(a0), key@, vv@));
            }
            if e2 > s.len() {
                return None;
            }
            let j3 = skip_ws_exec(s, e2);
            if !(i < j3 && j3 < s.len()) {
                return None;
            }
            if s[j3] == '}' {
                Some((acc, j3 + 1))
            } else if s[j3] == ',' {
                let j4 = skip_ws_exec(s, j3 + 1);
                if !(i < j4) {
                    None
                } else if j4 < s.len() && s[j4] == '}' {
                    Some((acc, j4 + 1))
                } else {
                    members_exec(s, j4, has_null, acc)
                }
            } else {
                None
            }
        },
    }
}

/// Parse the array whose `[` stands at `i`.
fn array_exec(s: &Vec<char>, i: usize, has_null: bool) -> (r: Option<(Vec<Dynamic>, usize)>)
    requires
        i < s@.len(),
    ensures
        match parse_array(s@, i as int, has_null) {
            Some((a, e)) => r matches Some((v, f)) && dyns_view(v@) == a && f == e,
            None => r is None,
        },
    decreases s@.len() - i, 2nat,
{
    if i >= s.len() {
        return None;
    }
    let j = skip_ws_exec(s, i + 1);
    if j < s.len() && s[j] == ']' {
        let v: Vec<Dynamic> = Vec::new();
        proof {
            assert(dyns_view(v@) =~= Seq::<DynV>::empty());
        }
        Some((v, j + 1))
    } else {
        let acc: Vec<Dynamic> = Vec::new();
        proof {
            assert(dyns_view(acc@) =~= Seq::<DynV>::empty());
        }
        items_exec(s, j, has_null, acc)
    }
}

/// Parse values from `i` on, appending them to `acc`.
fn items_exec(s: &Vec<char>, i: usize, has_null: bool, acc: Vec<Dynamic>) -> (r: Option<(Vec<Dynamic>, usize)>)
    ensures
        match parse_items(s@, i as int, has_null, dyns_view(acc@)) {
            Some((a, e)) => r matches Some((v, f)) && dyns_view(v@) == a && f == e,
            None => r is None,
        },
    decreases s@.len() - i, 4nat,
{
    if i > s.len() {
        return None;
    }
    let (v, e) = match value_exec(s, i, has_null) {
        Some(x) => x,
        None => return None,
    };
    let ghost a0 = acc@;
    let ghost vv = v;
    let mut acc = acc;
    acc.push(v);
    proof {
        crate::dynamic::lemma_dyns_view_push(a0, vv);
    }
    if e > s.len() {
        return None;
    }
    let j3 = skip_ws_exec(s, e);
    if !(i < j3 && j3 < s.len()) {
        return None;
    }
    if s[j3] == ']' {
        Some((acc, j3 + 1))
    } else if s[j3] == ',' {
        let j4 = skip_ws_exec(s, j3 + 1);
        if !(i < j4) {
            None
        } else if j4 < s.len() && s[j4] == ']' {
            Some((acc, j4 + 1))
        } else {
            items_exec(s, j4, has_null, acc)
        }
    } else {
        None
    }
}

impl Engine {
    /// Parse a JSON text into the entries of an object map, in key order.
    ///
    /// The text must be an object map (`{ ... }`, with white space around it allowed); a
    /// primitive value is refused. Sub-objects and arrays are handled transparently; a
    /// character literal such as `'$'` gives a character. With `has_null` set, `null` gives the
    /// unit value; without it, `null` is an error. Strings and characters take the escapes
    /// `\t`, `\n`, `\r`, `\\`, their own quote, `\x` with two hexadecimal digits, `\u` with
    /// four and `\U` with eight. Any text outside this grammar, a key given twice, or an
    /// integer out of range gives a parse error.
    pub fn parse_json(&self, json: &str, has_null: bool) -> (r: RhaiResultOf<Vec<MapEntry>>)
        ensures
            match json_object(json@, has_null) {
                Some(m) => r matches Ok(v) && entries_view(v@) == m,
                None => r matches Err(b) && *b matches EvalAltResult::ErrorParsing(_, p) && p.line == 0 && p.pos == 0,
            },
    {
        let s = str_chars(json);
        let i = skip_ws_exec(&s, 0);
        if i < s.len() && s[i] == '{' {
            match object_exec(&s, i, has_null) {
                Some((m, e)) => {
                    if e <= s.len() && skip_ws_exec(&s, e) == s.len() {
                        let entries = to_map_entries(m);
                        return Ok(entries);
                    }
                },
                None => {},
            }
        }
        Err(Box::new(EvalAltResult::ErrorParsing(string_of("malformed JSON object map"), Position::none())))
    }
}

} // verus!

//! The record format: a small JSON-shaped grammar on characters, with a
//! canonical printer and a tolerant parser.
//!
//! The printer emits no whitespace and escapes only quotes and backslashes;
//! the parser additionally accepts whitespace between tokens and the common
//! character escapes, which covers everything the historical records hold.
//! Numbers are signed 64-bit integers.

use vstd::prelude::*;

verus! {

broadcast use vstd::seq::group_seq_axioms;

/// A parsed record value, as specifications see it.
#[verifier::ext_equal]
pub enum JsonSpec {
    Null,
    Bool(bool),
    Int(int),
    Str(Seq<char>),
    Arr(Seq<JsonSpec>),
    Obj(Seq<(Seq<char>, JsonSpec)>),
}

/// Values the format can represent: every integer fits in 64 signed bits.
pub open spec fn wf_json(v: JsonSpec) -> bool
    decreases v,
{
    match v {
        JsonSpec::Null => true,
        JsonSpec::Bool(_) => true,
        JsonSpec::Int(i) => i64::MIN <= i <= i64::MAX,
        JsonSpec::Str(_) => true,
        JsonSpec::Arr(items) => forall|k: int|
            0 <= k < items.len() ==> wf_json(#[trigger] items[k]),
        JsonSpec::Obj(fields) => forall|k: int|
            0 <= k < fields.len() ==> wf_json(#[trigger] fields[k].1),
    }
}

// ---------------------------------------------------------------------------
// The canonical printed form.
// ---------------------------------------------------------------------------

pub open spec fn digit_char(d: int) -> char {
    if d == 0 { '0' }
    else if d == 1 { '1' }
    else if d == 2 { '2' }
    else if d == 3 { '3' }
    else if d == 4 { '4' }
    else if d == 5 { '5' }
    else if d == 6 { '6' }
    else if d == 7 { '7' }
    else if d == 8 { '8' }
    else { '9' }
}

/// Decimal digits of `n`, most significant first.
pub open spec fn print_nat(n: nat) -> Seq<char>
    decreases n,
{
    if n < 10 {
        seq![digit_char(n as int)]
    } else {
        print_nat(n / 10) + seq![digit_char((n % 10) as int)]
    }
}

pub open spec fn print_int(i: int) -> Seq<char> {
    if i < 0 {
        seq!['-'] + print_nat((-i) as nat)
    } else {
        print_nat(i as nat)
    }
}

pub open spec fn is_hex_digit(c: char) -> bool {
    (48 <= c as u32 <= 57) || (97 <= c as u32 <= 102) || (65 <= c as u32 <= 70)
}

pub open spec fn hex_val(c: char) -> int {
    if 48 <= c as u32 <= 57 {
        c as u32 - 48
    } else if 97 <= c as u32 <= 102 {
        c as u32 - 87
    } else {
        c as u32 - 55
    }
}

pub open spec fn hex_char(d: int) -> char {
    if d == 0 { '0' }
    else if d == 1 { '1' }
    else if d == 2 { '2' }
    else if d == 3 { '3' }
    else if d == 4 { '4' }
    else if d == 5 { '5' }
    else if d == 6 { '6' }
    else if d == 7 { '7' }
    else if d == 8 { '8' }
    else if d == 9 { '9' }
    else if d == 10 { 'a' }
    else if d == 11 { 'b' }
    else if d == 12 { 'c' }
    else if d == 13 { 'd' }
    else if d == 14 { 'e' }
    else { 'f' }
}

/// How one character appears inside a printed string: quotes and backslashes
/// escaped, control characters as their named escapes or `\u00XX`, so the
/// printed record is strict JSON for other clients too.
pub open spec fn esc_char(c: char) -> Seq<char> {
    if c == '"' || c == '\\' {
        seq!['\\', c]
    } else if c == '\n' {
        seq!['\\', 'n']
    } else if c == '\t' {
        seq!['\\', 't']
    } else if c == '\r' {
        seq!['\\', 'r']
    } else if c == '\u{8}' {
        seq!['\\', 'b']
    } else if c == '\u{c}' {
        seq!['\\', 'f']
    } else if (c as u32) < 32 {
        seq!['\\', 'u', '0', '0', hex_char(c as u32 as int / 16), hex_char(c as u32 as int % 16)]
    } else {
        seq![c]
    }
}

pub open spec fn esc(s: Seq<char>) -> Seq<char>
    decreases s.len(),
{
    if s.len() == 0 {
        Seq::empty()
    } else {
        esc_char(s[0]) + esc(s.drop_first())
    }
}

pub open spec fn print_str(s: Seq<char>) -> Seq<char> {
    seq!['"'] + esc(s) + seq!['"']
}

pub open spec fn print_json(v: JsonSpec) -> Seq<char>
    decreases v, 0int,
{
    match v {
        JsonSpec::Null => seq!['n', 'u', 'l', 'l'],
        JsonSpec::Bool(b) => if b {
            seq!['t', 'r', 'u', 'e']
        } else {
            seq!['f', 'a', 'l', 's', 'e']
        },
        JsonSpec::Int(i) => print_int(i),
        JsonSpec::Str(s) => print_str(s),
        JsonSpec::Arr(items) => seq!['['] + print_items(items) + seq![']'],
        JsonSpec::Obj(fields) => seq!['{'] + print_fields(fields) + seq!['}'],
    }
}

pub open spec fn print_items(items: Seq<JsonSpec>) -> Seq<char>
    decreases items, 1int,
{
    if items.len() == 0 {
        Seq::empty()
    } else if items.len() == 1 {
        print_json(items[0])
    } else {
        print_json(items[0]) + seq![','] + print_items(items.drop_first())
    }
}

pub open spec fn print_fields(fields: Seq<(Seq<char>, JsonSpec)>) -> Seq<char>
    decreases fields, 1int,
{
    if fields.len() == 0 {
        Seq::empty()
    } else if fields.len() == 1 {
        print_str(fields[0].0) + seq![':'] + print_json(fields[0].1)
    } else {
        print_str(fields[0].0) + seq![':'] + print_json(fields[0].1) + seq![','] + print_fields(
            fields.drop_first(),
        )
    }
}

// ---------------------------------------------------------------------------
// The parse: what any byte-for-byte input means.
// ---------------------------------------------------------------------------

pub open spec fn is_ws(c: char) -> bool {
    c == ' ' || c == '\n' || c == '\t' || c == '\r'
}

/// First position at or after `i` holding no whitespace.
pub open spec fn skip_ws(s: Seq<char>, i: int) -> int
    decreases s.len() - i,
{
    if 0 <= i < s.len() && is_ws(s[i]) {
        skip_ws(s, i + 1)
    } else {
        i
    }
}

/// What a one-letter backslash escape stands for; `None` for sequences the
/// format does not know (`\u` is read separately).
pub open spec fn unesc_char(c: char) -> Option<char> {
    if c == '"' { Some('"') }
    else if c == '\\' { Some('\\') }
    else if c == '/' { Some('/') }
    else if c == 'n' { Some('\n') }
    else if c == 't' { Some('\t') }
    else if c == 'r' { Some('\r') }
    else if c == 'b' { Some('\u{8}') }
    else if c == 'f' { Some('\u{c}') }
    else { None }
}

/// The content of a string, read from just after its opening quote; ends past
/// the closing quote.
pub open spec fn parse_str_body(s: Seq<char>, i: int) -> Option<(Seq<char>, int)>
    decreases s.len() - i,
{
    if i < 0 || i >= s.len() {
        None
    } else if s[i] == '"' {
        Some((Seq::empty(), i + 1))
    } else if s[i] == '\\' {
        if i + 1 < s.len() {
            if s[i + 1] == 'u' {
                if i + 6 <= s.len() && is_hex_digit(s[i + 2]) && is_hex_digit(s[i + 3])
                    && is_hex_digit(s[i + 4]) && is_hex_digit(s[i + 5]) {
                    let v = hex_val(s[i + 2]) * 4096 + hex_val(s[i + 3]) * 256 + hex_val(
                        s[i + 4],
                    ) * 16 + hex_val(s[i + 5]);
                    if 0xD800 <= v <= 0xDFFF {
                        None
                    } else {
                        match parse_str_body(s, i + 6) {
                            Some((rest, e)) => Some((seq![(v as u32) as char] + rest, e)),
                            None => None,
                        }
                    }
                } else {
                    None
                }
            } else {
                match unesc_char(s[i + 1]) {
                    Some(c) => match parse_str_body(s, i + 2) {
                        Some((rest, e)) => Some((seq![c] + rest, e)),
                        None => None,
                    },
                    None => None,
                }
            }
        } else {
            None
        }
    } else {
        match parse_str_body(s, i + 1) {
            Some((rest, e)) => Some((seq![s[i]] + rest, e)),
            None => None,
        }
    }
}

pub open spec fn is_digit(c: char) -> bool {
    48 <= c as u32 <= 57
}

pub open spec fn char_digit(c: char) -> int {
    c as u32 - 48
}

/// First position at or after `i` holding no digit.
pub open spec fn digits_end(s: Seq<char>, i: int) -> int
    decreases s.len() - i,
{
    if 0 <= i < s.len() && is_digit(s[i]) {
        digits_end(s, i + 1)
    } else {
        i
    }
}

/// Value of the digit run `s[i..e)`, read in base ten.
pub open spec fn digits_val(s: Seq<char>, i: int, e: int) -> int
    decreases e - i,
{
    if e <= i {
        0
    } else {
        digits_val(s, i, e - 1) * 10 + char_digit(s[e - 1])
    }
}

pub open spec fn parse_uint(s: Seq<char>, i: int) -> Option<(int, int)> {
    let e = digits_end(s, i);
    if e > i {
        Some((digits_val(s, i, e), e))
    } else {
        None
    }
}

/// An optionally signed decimal integer; values outside the signed 64-bit
/// range are not part of the format.
pub open spec fn parse_int(s: Seq<char>, i: int) -> Option<(int, int)> {
    if 0 <= i < s.len() && s[i] == '-' {
        match parse_uint(s, i + 1) {
            Some((n, e)) => if n <= 0x8000_0000_0000_0000 {
                Some((-n, e))
            } else {
                None
            },
            None => None,
        }
    } else {
        match parse_uint(s, i) {
            Some((n, e)) => if n <= 0x7fff_ffff_ffff_ffff {
                Some((n, e))
            } else {
                None
            },
            None => None,
        }
    }
}

/// One value starting exactly at `i`; ends right past the value.
pub open spec fn parse_value(s: Seq<char>, i: int) -> Option<(JsonSpec, int)>
    decreases s.len() - i, 0int,
{
    if i < 0 || i >= s.len() {
        None
    } else if s[i] == 'n' {
        if s.len() - i >= 4 && s[i + 1] == 'u' && s[i + 2] == 'l' && s[i + 3] == 'l' {
            Some((JsonSpec::Null, i + 4))
        } else {
            None
        }
    } else if s[i] == 't' {
        if s.len() - i >= 4 && s[i + 1] == 'r' && s[i + 2] == 'u' && s[i + 3] == 'e' {
            Some((JsonSpec::Bool(true), i + 4))
        } else {
            None
        }
    } else if s[i] == 'f' {
        if s.len() - i >= 5 && s[i + 1] == 'a' && s[i + 2] == 'l' && s[i + 3] == 's' && s[i + 4]
            == 'e' {
            Some((JsonSpec::Bool(false), i + 5))
        } else {
            None
        }
    } else if s[i] == '"' {
        match parse_str_body(s, i + 1) {
            Some((c, e)) => Some((JsonSpec::Str(c), e)),
            None => None,
        }
    } else if s[i] == '[' {
        let j = skip_ws(s, i + 1);
        if j < s.len() && s[j] == ']' {
            Some((JsonSpec::Arr(Seq::empty()), j + 1))
        } else {
            match parse_items(s, i + 1) {
                Some((items, e)) => Some((JsonSpec::Arr(items), e)),
                None => None,
            }
        }
    } else if s[i] == '{' {
        let j = skip_ws(s, i + 1);
        if j < s.len() && s[j] == '}' {
            Some((JsonSpec::Obj(Seq::empty()), j + 1))
        } else {
            match parse_fields(s, i + 1) {
                Some((fields, e)) => Some((JsonSpec::Obj(fields), e)),
                None => None,
            }
        }
    } else if s[i] == '-' || is_digit(s[i]) {
        match parse_int(s, i) {
            Some((n, e)) => Some((JsonSpec::Int(n), e)),
            None => None,
        }
    } else {
        None
    }
}

/// One or more comma-separated values; consumes the closing bracket.
///
/// The early `None` branches on index bounds can never be reached; they make
/// the recursion visibly well-founded.
pub open spec fn parse_items(s: Seq<char>, i: int) -> Option<(Seq<JsonSpec>, int)>
    decreases s.len() - i, 1int,
{
    let a = skip_ws(s, i);
    if a < i || a > s.len() {
        None
    } else {
        match parse_value(s, a) {
            None => None,
            Some((v, e)) => {
                if e <= a || e > s.len() {
                    None
                } else {
                    let j = skip_ws(s, e);
                    if j < e {
                        None
                    } else if j < s.len() && s[j] == ',' {
                        match parse_items(s, j + 1) {
                            Some((rest, end)) => Some((seq![v] + rest, end)),
                            None => None,
                        }
                    } else if j < s.len() && s[j] == ']' {
                        Some((seq![v], j + 1))
                    } else {
                        None
                    }
                }
            },
        }
    }
}

/// One or more `"key": value` members; consumes the closing brace.
///
/// As in `parse_items`, the bound guards are unreachable and only make the
/// recursion visibly well-founded.
pub open spec fn parse_fields(s: Seq<char>, i: int) -> Option<(Seq<(Seq<char>, JsonSpec)>, int)>
    decreases s.len() - i, 1int,
{
    let a = skip_ws(s, i);
    if a < i || a >= s.len() || s[a] != '"' {
        None
    } else {
        match parse_str_body(s, a + 1) {
            Some((k, e1)) => {
                let c = skip_ws(s, e1);
                if a < e1 <= s.len() && e1 <= c && c < s.len() && s[c] == ':' {
                    let vstart = skip_ws(s, c + 1);
                    if vstart < c + 1 || vstart > s.len() {
                        None
                    } else {
                        match parse_value(s, vstart) {
                            Some((v, e)) => {
                                if e <= vstart || e > s.len() {
                                    None
                                } else {
                                    let j = skip_ws(s, e);
                                    if j < e {
                                        None
                                    } else if j < s.len() && s[j] == ',' {
                                        match parse_fields(s, j + 1) {
                                            Some((rest, end)) => Some((seq![(k, v)] + rest, end)),
                                            None => None,
                                        }
                                    } else if j < s.len() && s[j] == '}' {
                                        Some((seq![(k, v)], j + 1))
                                    } else {
                                        None
                                    }
                                }
                            },
                            None => None,
                        }
                    }
                } else {
                    None
                }
            },
            None => None,
        }
    }
}

/// The meaning of a whole text: one value, nothing but whitespace around it.
pub open spec fn parse_json(s: Seq<char>) -> Option<JsonSpec> {
    let i = skip_ws(s, 0);
    match parse_value(s, i) {
        Some((v, e)) => if skip_ws(s, e) == s.len() {
            Some(v)
        } else {
            None
        },
        None => None,
    }
}

// ---------------------------------------------------------------------------
// The parse reads the canonical printed form back.
// ---------------------------------------------------------------------------

/// The text `t` stands in `s` starting at `i`.
pub open spec fn text_at(s: Seq<char>, i: int, t: Seq<char>) -> bool {
    &&& 0 <= i
    &&& i + t.len() <= s.len()
    &&& forall|k: int| 0 <= k < t.len() ==> s[i + k] == #[trigger] t[k]
}

proof fn lemma_text_at_split(s: Seq<char>, i: int, a: Seq<char>, b: Seq<char>)
    requires
        text_at(s, i, a + b),
    ensures
        text_at(s, i, a),
        text_at(s, i + a.len(), b),
{
    assert forall|k: int| 0 <= k < a.len() implies s[i + k] == a[k] by {
        assert((a + b)[k] == a[k]);
    }
    assert forall|k: int| 0 <= k < b.len() implies s[i + a.len() + k] == b[k] by {
        assert((a + b)[a.len() + k] == b[k]);
    }
}

proof fn lemma_digit_char_facts(d: int)
    requires
        0 <= d <= 9,
    ensures
        is_digit(digit_char(d)),
        char_digit(digit_char(d)) == d,
{
    assert('0' as u32 == 48);
}

/// Shape of a printed natural: one or more digit characters.
proof fn lemma_print_nat_shape(n: nat)
    ensures
        print_nat(n).len() >= 1,
        forall|k: int| 0 <= k < print_nat(n).len() ==> is_digit(#[trigger] print_nat(n)[k]),
    decreases n,
{
    if n < 10 {
        lemma_digit_char_facts(n as int);
    } else {
        lemma_print_nat_shape(n / 10);
        lemma_digit_char_facts((n % 10) as int);
        assert forall|k: int| 0 <= k < print_nat(n).len() implies is_digit(
            #[trigger] print_nat(n)[k],
        ) by {
            if k < print_nat(n / 10).len() {
                assert(print_nat(n)[k] == print_nat(n / 10)[k]);
            } else {
                assert(print_nat(n)[k] == digit_char((n % 10) as int));
            }
        }
    }
}

/// A run of digits with a non-digit (or the end) after it ends exactly there.
proof fn lemma_digits_end_region(s: Seq<char>, i: int, e: int)
    requires
        0 <= i <= e <= s.len(),
        forall|k: int| i <= k < e ==> is_digit(#[trigger] s[k]),
        e == s.len() || !is_digit(s[e]),
    ensures
        digits_end(s, i) == e,
    decreases e - i,
{
    if i < e {
        lemma_digits_end_region(s, i + 1, e);
    }
}

/// Reading back the digits of `n` yields `n`.
proof fn lemma_print_nat_val(s: Seq<char>, i: int, n: nat)
    requires
        text_at(s, i, print_nat(n)),
    ensures
        digits_val(s, i, i + print_nat(n).len()) == n,
    decreases n,
{
    let p = print_nat(n);
    if n < 10 {
        lemma_digit_char_facts(n as int);
        assert(s[i] == p[0]);
        assert(digits_val(s, i, i) == 0);
        assert(digits_val(s, i, i + 1) == digits_val(s, i, i) * 10 + char_digit(s[i]));
    } else {
        let q = print_nat(n / 10);
        lemma_text_at_split(s, i, q, seq![digit_char((n % 10) as int)]);
        lemma_print_nat_val(s, i, n / 10);
        lemma_digit_char_facts((n % 10) as int);
        assert((seq![digit_char((n % 10) as int)])[0] == digit_char((n % 10) as int));
        assert(s[i + q.len()] == digit_char((n % 10) as int));
        assert(digits_val(s, i, i + p.len()) == digits_val(s, i, i + q.len()) * 10 + char_digit(
            s[i + p.len() - 1],
        ));
        assert(n / 10 * 10 + n % 10 == n) by {
            vstd::arithmetic::div_mod::lemma_fundamental_div_mod(n as int, 10);
        }
    }
}

/// Characters that can open a printed value; never whitespace and never a
/// closing delimiter.
pub open spec fn value_start(c: char) -> bool {
    c == 'n' || c == 't' || c == 'f' || c == '"' || c == '[' || c == '{' || c == '-' || is_digit(c)
}

proof fn lemma_value_start_not_delim(c: char)
    requires
        value_start(c),
    ensures
        !is_ws(c),
        c != ']',
        c != '}',
        c != ',',
        c != ':',
{
    assert(' ' as u32 == 32 && '\n' as u32 == 10 && '\t' as u32 == 9 && '\r' as u32 == 13
        && ']' as u32 == 93 && '}' as u32 == 125 && ',' as u32 == 44 && ':' as u32 == 58
        && 'n' as u32 == 110 && 't' as u32 == 116 && 'f' as u32 == 102 && '"' as u32 == 34
        && '[' as u32 == 91 && '{' as u32 == 123 && '-' as u32 == 45);
}

/// Every printed value is non-empty and opens with a value-start character.
proof fn lemma_print_first(v: JsonSpec)
    ensures
        print_json(v).len() >= 1,
        value_start(print_json(v)[0]),
    decreases v,
{
    match v {
        JsonSpec::Null => {},
        JsonSpec::Bool(b) => {},
        JsonSpec::Int(i) => {
            if i < 0 {
                lemma_print_nat_shape((-i) as nat);
            } else {
                lemma_print_nat_shape(i as nat);
                assert(print_json(v)[0] == print_nat(i as nat)[0]);
            }
        },
        JsonSpec::Str(s) => {},
        JsonSpec::Arr(items) => {},
        JsonSpec::Obj(fields) => {},
    }
}

proof fn lemma_hex_char_facts(d: int)
    requires
        0 <= d < 16,
    ensures
        is_hex_digit(hex_char(d)),
        hex_val(hex_char(d)) == d,
{
    assert('0' as u32 == 48 && '1' as u32 == 49 && '2' as u32 == 50 && '3' as u32 == 51
        && '4' as u32 == 52 && '5' as u32 == 53 && '6' as u32 == 54 && '7' as u32 == 55
        && '8' as u32 == 56 && '9' as u32 == 57 && 'a' as u32 == 97 && 'b' as u32 == 98
        && 'c' as u32 == 99 && 'd' as u32 == 100 && 'e' as u32 == 101 && 'f' as u32 == 102);
}

/// Reading a printed string body (content escaped, closing quote appended)
/// yields the content back.
proof fn lemma_parse_printed_str_body(s: Seq<char>, i: int, content: Seq<char>)
    requires
        text_at(s, i, esc(content) + seq!['"']),
    ensures
        parse_str_body(s, i) == Some((content, i + esc(content).len() + 1)),
    decreases content.len(),
{
    let whole = esc(content) + seq!['"'];
    if content.len() == 0 {
        assert(s[i] == whole[0]);
    } else {
        let c = content[0];
        let rest = content.drop_first();
        assert(esc(content) == esc_char(c) + esc(rest));
        assert(esc_char(c) + (esc(rest) + seq!['"']) =~= esc(content) + seq!['"']);
        lemma_text_at_split(s, i, esc_char(c), esc(rest) + seq!['"']);
        assert('"' as u32 == 34 && '\\' as u32 == 92 && 'u' as u32 == 117 && 'n' as u32 == 110
            && 't' as u32 == 116 && 'r' as u32 == 114 && 'b' as u32 == 98 && 'f' as u32 == 102
            && '\n' as u32 == 10 && '\t' as u32 == 9 && '\r' as u32 == 13 && '\u{8}' as u32 == 8
            && '\u{c}' as u32 == 12 && '0' as u32 == 48);
        if c == '"' || c == '\\' {
            assert(s[i] == '\\');
            assert(s[i + 1] == c);
            assert(s[i + 1] != 'u');
            assert(unesc_char(c) == Some(c));
            lemma_parse_printed_str_body(s, i + 2, rest);
            assert(seq![c] + rest =~= content);
        } else if c == '\n' || c == '\t' || c == '\r' || c == '\u{8}' || c == '\u{c}' {
            let x = esc_char(c)[1];
            assert(s[i] == '\\');
            assert(s[i + 1] == x);
            assert(x != 'u');
            assert(unesc_char(x) == Some(c));
            lemma_parse_printed_str_body(s, i + 2, rest);
            assert(seq![c] + rest =~= content);
        } else if (c as u32) < 32 {
            let cu = c as u32 as int;
            let h1 = hex_char(cu / 16);
            let h0 = hex_char(cu % 16);
            vstd::arithmetic::div_mod::lemma_fundamental_div_mod(cu, 16);
            vstd::arithmetic::div_mod::lemma_mod_bound(cu, 16);
            lemma_hex_char_facts(cu / 16);
            lemma_hex_char_facts(cu % 16);
            lemma_hex_char_facts(0);
            assert(s[i] == '\\' && s[i + 1] == 'u' && s[i + 2] == '0' && s[i + 3] == '0' && s[i
                + 4] == h1 && s[i + 5] == h0);
            let v = hex_val(s[i + 2]) * 4096 + hex_val(s[i + 3]) * 256 + hex_val(s[i + 4]) * 16
                + hex_val(s[i + 5]);
            assert(v == cu);
            assert((v as u32) as char == c) by {
                vstd::utf8::char_u32_cast(c, c as u32);
            }
            lemma_parse_printed_str_body(s, i + 6, rest);
            assert(seq![c] + rest =~= content);
        } else {
            assert(esc_char(c)[0] == c);
            assert(s[i] == c);
            lemma_parse_printed_str_body(s, i + 1, rest);
            assert(seq![c] + rest =~= content);
        }
    }
}

/// After a printed value the text ends or goes on with a non-digit, so a
/// printed number cannot run on into what follows.
pub open spec fn delim_ok(s: Seq<char>, e: int) -> bool {
    e == s.len() || !is_digit(s[e])
}

proof fn lemma_digit_codes()
    ensures
        !is_digit('-'),
        !is_digit(','),
        !is_digit(']'),
        !is_digit('}'),
        !is_digit(':'),
        !is_digit('"'),
        is_digit('0'),
        forall|c: char| is_digit(c) ==> c != 'n' && c != 't' && c != 'f' && c != '"' && c != '['
            && c != '{' && c != '-',
{
    assert('-' as u32 == 45 && ',' as u32 == 44 && ']' as u32 == 93 && '}' as u32 == 125
        && ':' as u32 == 58 && '"' as u32 == 34 && '0' as u32 == 48 && 'n' as u32 == 110
        && 't' as u32 == 116 && 'f' as u32 == 102 && '[' as u32 == 91 && '{' as u32 == 123);
    assert forall|c: char| is_digit(c) implies c != 'n' && c != 't' && c != 'f' && c != '"' && c
        != '[' && c != '{' && c != '-' by {
        if c == 'n' || c == 't' || c == 'f' || c == '"' || c == '[' || c == '{' || c == '-' {
            assert(!is_digit(c));
        }
    }
}

/// Parsing at the start of a printed value reads exactly that value back.
proof fn lemma_parse_printed_value(s: Seq<char>, i: int, v: JsonSpec)
    requires
        wf_json(v),
        text_at(s, i, print_json(v)),
        delim_ok(s, i + print_json(v).len()),
    ensures
        parse_value(s, i) == Some((v, i + print_json(v).len())),
    decreases v,
{
    let p = print_json(v);
    lemma_print_first(v);
    lemma_digit_codes();
    assert(s[i] == p[0]);
    match v {
        JsonSpec::Null => {
            assert(s[i + 1] == p[1] && s[i + 2] == p[2] && s[i + 3] == p[3]);
        },
        JsonSpec::Bool(b) => {
            if b {
                assert(s[i + 1] == p[1] && s[i + 2] == p[2] && s[i + 3] == p[3]);
            } else {
                assert(s[i + 1] == p[1] && s[i + 2] == p[2] && s[i + 3] == p[3] && s[i + 4]
                    == p[4]);
            }
        },
        JsonSpec::Int(n) => {
            if n >= 0 {
                let d = print_nat(n as nat);
                lemma_print_nat_shape(n as nat);
                assert forall|k: int| i <= k < i + d.len() implies is_digit(#[trigger] s[k]) by {
                    assert(s[k] == d[k - i]);
                }
                lemma_digits_end_region(s, i, i + d.len());
                lemma_print_nat_val(s, i, n as nat);
            } else {
                let d = print_nat((-n) as nat);
                assert(p == seq!['-'] + d);
                lemma_text_at_split(s, i, seq!['-'], d);
                assert(s[i] == '-');
                lemma_print_nat_shape((-n) as nat);
                assert forall|k: int| i + 1 <= k < i + 1 + d.len() implies is_digit(
                    #[trigger] s[k],
                ) by {
                    assert(s[i + 1 + (k - i - 1)] == d[k - i - 1]);
                }
                lemma_digits_end_region(s, i + 1, i + 1 + d.len());
                lemma_print_nat_val(s, i + 1, (-n) as nat);
                assert(digits_val(s, i + 1, digits_end(s, i + 1)) == -n);
            }
        },
        JsonSpec::Str(str) => {
            assert(p =~= seq!['"'] + (esc(str) + seq!['"']));
            lemma_text_at_split(s, i, seq!['"'], esc(str) + seq!['"']);
            lemma_parse_printed_str_body(s, i + 1, str);
        },
        JsonSpec::Arr(items) => {
            if items.len() == 0 {
                assert(p =~= seq!['[', ']']);
                assert(s[i + 1] == p[1]);
                assert(!is_ws(']'));
                assert(skip_ws(s, i + 1) == i + 1);
                assert(items =~= Seq::<JsonSpec>::empty());
            } else {
                assert(wf_json(items[0]));
                lemma_print_first(items[0]);
                let body = print_items(items) + seq![']'];
                assert(p =~= seq!['['] + body);
                lemma_text_at_split(s, i, seq!['['], body);
                assert(print_items(items)[0] == print_json(items[0])[0]);
                assert(s[i + 1] == body[0]);
                assert(body[0] == print_items(items)[0]);
                lemma_value_start_not_delim(print_json(items[0])[0]);
                assert(skip_ws(s, i + 1) == i + 1);
                lemma_parse_printed_items(s, i + 1, items);
            }
        },
        JsonSpec::Obj(fields) => {
            if fields.len() == 0 {
                assert(p =~= seq!['{', '}']);
                assert(s[i + 1] == p[1]);
                assert(!is_ws('}'));
                assert(skip_ws(s, i + 1) == i + 1);
                assert(fields =~= Seq::<(Seq<char>, JsonSpec)>::empty());
            } else {
                let body = print_fields(fields) + seq!['}'];
                assert(p =~= seq!['{'] + body);
                lemma_text_at_split(s, i, seq!['{'], body);
                assert(print_fields(fields)[0] == '"') by {
                    assert(print_str(fields[0].0)[0] == '"');
                }
                assert(s[i + 1] == body[0]);
                assert(body[0] == print_fields(fields)[0]);
                assert(!is_ws('"') && '"' != '}');
                assert(skip_ws(s, i + 1) == i + 1);
                lemma_parse_printed_fields(s, i + 1, fields);
            }
        },
    }
}

/// Parsing at the start of printed array members (closing bracket appended)
/// reads exactly those members back.
proof fn lemma_parse_printed_items(s: Seq<char>, i: int, items: Seq<JsonSpec>)
    requires
        items.len() >= 1,
        forall|k: int| 0 <= k < items.len() ==> wf_json(#[trigger] items[k]),
        text_at(s, i, print_items(items) + seq![']']),
    ensures
        parse_items(s, i) == Some((items, i + print_items(items).len() + 1)),
    decreases items,
{
    let v0 = items[0];
    let p0 = print_json(v0);
    lemma_print_first(v0);
    lemma_value_start_not_delim(p0[0]);
    lemma_digit_codes();
    if items.len() == 1 {
        assert(print_items(items) + seq![']'] =~= p0 + seq![']']);
        lemma_text_at_split(s, i, p0, seq![']']);
        assert(s[i] == p0[0]);
        assert(skip_ws(s, i) == i);
        assert(s[i + p0.len()] == (seq![']'])[0]);
        lemma_parse_printed_value(s, i, v0);
        let e0 = i + p0.len();
        assert(!is_ws(']'));
        assert(skip_ws(s, e0) == e0);
        assert(seq![v0] =~= items);
    } else {
        let rest = items.drop_first();
        let tail = seq![','] + print_items(rest) + seq![']'];
        assert(print_items(items) + seq![']'] =~= p0 + tail);
        lemma_text_at_split(s, i, p0, tail);
        assert(s[i] == p0[0]);
        assert(skip_ws(s, i) == i);
        let e0 = i + p0.len();
        assert(s[e0] == tail[0]);
        assert(tail[0] == ',');
        lemma_parse_printed_value(s, i, v0);
        assert(!is_ws(','));
        assert(skip_ws(s, e0) == e0);
        assert(tail =~= seq![','] + (print_items(rest) + seq![']']));
        lemma_text_at_split(s, e0, seq![','], print_items(rest) + seq![']']);
        assert forall|k: int| 0 <= k < rest.len() implies wf_json(#[trigger] rest[k]) by {
            assert(rest[k] == items[k + 1]);
        }
        lemma_parse_printed_items(s, e0 + 1, rest);
        assert(seq![v0] + rest =~= items);
    }
}

/// Parsing at the start of printed object members (closing brace appended)
/// reads exactly those members back.
proof fn lemma_parse_printed_fields(s: Seq<char>, i: int, fields: Seq<(Seq<char>, JsonSpec)>)
    requires
        fields.len() >= 1,
        forall|k: int| 0 <= k < fields.len() ==> wf_json(#[trigger] fields[k].1),
        text_at(s, i, print_fields(fields) + seq!['}']),
    ensures
        parse_fields(s, i) == Some((fields, i + print_fields(fields).len() + 1)),
    decreases fields,
{
    let k0 = fields[0].0;
    let v0 = fields[0].1;
    let pk = print_str(k0);
    let p0 = print_json(v0);
    assert(wf_json(v0));
    lemma_print_first(v0);
    lemma_value_start_not_delim(p0[0]);
    lemma_digit_codes();
    let pf = pk + seq![':'] + p0;
    let tail_len = print_fields(fields).len() + 1 - pf.len();
    if fields.len() == 1 {
        assert(print_fields(fields) + seq!['}'] =~= pk + (seq![':'] + p0 + seq!['}']));
        lemma_text_at_split(s, i, pk, seq![':'] + p0 + seq!['}']);
        assert(pk =~= seq!['"'] + (esc(k0) + seq!['"']));
        lemma_text_at_split(s, i, seq!['"'], esc(k0) + seq!['"']);
        assert((seq!['"'])[0] == '"');
        assert(s[i] == '"');
        assert(!is_ws('"'));
        assert(skip_ws(s, i) == i);
        lemma_parse_printed_str_body(s, i + 1, k0);
        let e1 = i + pk.len();
        assert(parse_str_body(s, i + 1) == Some((k0, e1)));
        let t2 = seq![':'] + p0 + seq!['}'];
        assert(s[e1] == t2[0]);
        assert(t2[0] == ':');
        assert(!is_ws(':'));
        assert(skip_ws(s, e1) == e1);
        assert(t2 =~= seq![':'] + (p0 + seq!['}']));
        lemma_text_at_split(s, e1, seq![':'], p0 + seq!['}']);
        lemma_text_at_split(s, e1 + 1, p0, seq!['}']);
        assert(s[e1 + 1] == p0[0]);
        assert(skip_ws(s, e1 + 1) == e1 + 1);
        let e = e1 + 1 + p0.len();
        assert(s[e] == (seq!['}'])[0]);
        lemma_parse_printed_value(s, e1 + 1, v0);
        assert(!is_ws('}'));
        assert(skip_ws(s, e) == e);
        assert(seq![(k0, v0)] =~= fields) by {
            assert(fields[0] == (k0, v0));
        }
    } else {
        let rest = fields.drop_first();
        let t2 = seq![':'] + p0 + seq![','] + print_fields(rest) + seq!['}'];
        assert(print_fields(fields) + seq!['}'] =~= pk + t2);
        lemma_text_at_split(s, i, pk, t2);
        assert(pk =~= seq!['"'] + (esc(k0) + seq!['"']));
        lemma_text_at_split(s, i, seq!['"'], esc(k0) + seq!['"']);
        assert((seq!['"'])[0] == '"');
        assert(s[i] == '"');
        assert(!is_ws('"'));
        assert(skip_ws(s, i) == i);
        lemma_parse_printed_str_body(s, i + 1, k0);
        let e1 = i + pk.len();
        assert(s[e1] == t2[0]);
        assert(t2[0] == ':');
        assert(!is_ws(':'));
        assert(skip_ws(s, e1) == e1);
        assert(t2 =~= seq![':'] + (p0 + (seq![','] + print_fields(rest) + seq!['}'])));
        lemma_text_at_split(s, e1, seq![':'], p0 + (seq![','] + print_fields(rest) + seq!['}']));
        lemma_text_at_split(s, e1 + 1, p0, seq![','] + print_fields(rest) + seq!['}']);
        assert(s[e1 + 1] == p0[0]);
        assert(skip_ws(s, e1 + 1) == e1 + 1);
        let e = e1 + 1 + p0.len();
        let t3 = seq![','] + print_fields(rest) + seq!['}'];
        assert(s[e] == t3[0]);
        assert(t3[0] == ',');
        lemma_parse_printed_value(s, e1 + 1, v0);
        assert(!is_ws(','));
        assert(skip_ws(s, e) == e);
        assert(t3 =~= seq![','] + (print_fields(rest) + seq!['}']));
        lemma_text_at_split(s, e, seq![','], print_fields(rest) + seq!['}']);
        assert forall|k: int| 0 <= k < rest.len() implies wf_json(#[trigger] rest[k].1) by {
            assert(rest[k] == fields[k + 1]);
        }
        lemma_parse_printed_fields(s, e + 1, rest);
        assert(seq![(k0, v0)] + rest =~= fields) by {
            assert(fields[0] == (k0, v0));
        }
    }
}

/// Round trip: the canonical printed form of any well-formed value parses
/// back to exactly that value.
pub proof fn lemma_parse_print_json(v: JsonSpec)
    requires
        wf_json(v),
    ensures
        parse_json(print_json(v)) == Some(v),
{
    let s = print_json(v);
    lemma_print_first(v);
    lemma_value_start_not_delim(s[0]);
    assert(text_at(s, 0, s));
    assert(skip_ws(s, 0) == 0);
    lemma_parse_printed_value(s, 0, v);
    assert(skip_ws(s, s.len() as int) == s.len());
}

// ---------------------------------------------------------------------------
// The executable reader.
// ---------------------------------------------------------------------------

/// A parsed record value.
pub enum Json {
    Null,
    Bool(bool),
    Int(i64),
    Str(Vec<char>),
    Arr(Vec<Json>),
    Obj(Vec<(Vec<char>, Json)>),
}

pub open spec fn jv_seq(s: Seq<Json>) -> Seq<JsonSpec>
    decreases s, 1int,
{
    if s.len() == 0 {
        Seq::empty()
    } else {
        seq![s[0].jv()] + jv_seq(s.drop_first())
    }
}

pub open spec fn jv_fields(s: Seq<(Vec<char>, Json)>) -> Seq<(Seq<char>, JsonSpec)>
    decreases s, 1int,
{
    if s.len() == 0 {
        Seq::empty()
    } else {
        seq![(s[0].0@, s[0].1.jv())] + jv_fields(s.drop_first())
    }
}

impl Json {
    /// The value this tree stands for.
    pub open spec fn jv(&self) -> JsonSpec
        decreases self, 0int,
    {
        match self {
            Json::Null => JsonSpec::Null,
            Json::Bool(b) => JsonSpec::Bool(*b),
            Json::Int(n) => JsonSpec::Int(*n as int),
            Json::Str(s) => JsonSpec::Str(s@),
            Json::Arr(v) => JsonSpec::Arr(jv_seq(v@)),
            Json::Obj(m) => JsonSpec::Obj(jv_fields(m@)),
        }
    }
}

pub proof fn lemma_jv_seq(s: Seq<Json>)
    ensures
        jv_seq(s).len() == s.len(),
        forall|k: int| 0 <= k < s.len() ==> jv_seq(s)[k] == s[k].jv(),
    decreases s.len(),
{
    if s.len() > 0 {
        lemma_jv_seq(s.drop_first());
        assert forall|k: int| 0 <= k < s.len() implies jv_seq(s)[k] == s[k].jv() by {
            if k > 0 {
                assert(jv_seq(s)[k] == jv_seq(s.drop_first())[k - 1]);
                assert(s.drop_first()[k - 1] == s[k]);
            }
        }
    }
}

pub proof fn lemma_jv_fields(s: Seq<(Vec<char>, Json)>)
    ensures
        jv_fields(s).len() == s.len(),
        forall|k: int|
            0 <= k < s.len() ==> jv_fields(s)[k] == (s[k].0@, s[k].1.jv()),
    decreases s.len(),
{
    if s.len() > 0 {
        lemma_jv_fields(s.drop_first());
        assert forall|k: int| 0 <= k < s.len() implies jv_fields(s)[k] == (
            s[k].0@,
            s[k].1.jv(),
        ) by {
            if k > 0 {
                assert(jv_fields(s)[k] == jv_fields(s.drop_first())[k - 1]);
                assert(s.drop_first()[k - 1] == s[k]);
            }
        }
    }
}

fn ws_char(c: char) -> (r: bool)
    ensures
        r == is_ws(c),
{
    c == ' ' || c == '\n' || c == '\t' || c == '\r'
}

fn digit_char_q(c: char) -> (r: bool)
    ensures
        r == is_digit(c),
{
    let u = c as u32;
    48 <= u && u <= 57
}

fn skip_ws_run(s: &Vec<char>, i: usize) -> (r: usize)
    requires
        i <= s.len(),
    ensures
        r as int == skip_ws(s@, i as int),
        i <= r <= s.len(),
{
    let mut cur = i;
    while cur < s.len() && ws_char(s[cur])
        invariant
            i <= cur <= s.len(),
            skip_ws(s@, i as int) == skip_ws(s@, cur as int),
        decreases s.len() - cur,
    {
        cur = cur + 1;
    }
    cur
}

fn unesc(c: char) -> (r: Option<char>)
    ensures
        r == unesc_char(c),
{
    if c == '"' { Some('"') }
    else if c == '\\' { Some('\\') }
    else if c == '/' { Some('/') }
    else if c == 'n' { Some('\n') }
    else if c == 't' { Some('\t') }
    else if c == 'r' { Some('\r') }
    else if c == 'b' { Some('\u{8}') }
    else if c == 'f' { Some('\u{c}') }
    else { None }
}

fn hex_digit_q(c: char) -> (r: bool)
    ensures
        r == is_hex_digit(c),
{
    let u = c as u32;
    (48 <= u && u <= 57) || (97 <= u && u <= 102) || (65 <= u && u <= 70)
}

fn hex_digit_val(c: char) -> (r: u32)
    requires
        is_hex_digit(c),
    ensures
        r == hex_val(c),
        r < 16,
{
    let u = c as u32;
    if 48 <= u && u <= 57 {
        u - 48
    } else if 97 <= u && u <= 102 {
        u - 87
    } else {
        u - 55
    }
}

/// Relies on `char::from_u32`: every unicode scalar value yields the
/// character with exactly that value. Surrogates, the only values up to
/// `0xFFFF` that are no scalars, are kept out by the callers.
#[verifier::external_body]
fn char_of_scalar(v: u32) -> (c: char)
    requires
        v < 0xD800 || (0xE000 <= v < 0x110000),
    ensures
        c as u32 == v,
{
    char::from_u32(v).expect("a unicode scalar value")
}

/// Reads a string body, from just after the opening quote.
fn read_str_body(s: &Vec<char>, i: usize) -> (r: Option<(Vec<char>, usize)>)
    requires
        i <= s.len(),
    ensures
        match r {
            Some((c, e)) => {
                &&& parse_str_body(s@, i as int) == Some((c@, e as int))
                &&& i < e <= s.len()
            },
            None => parse_str_body(s@, i as int) is None,
        },
{
    let mut acc: Vec<char> = Vec::new();
    let mut cur = i;
    loop
        invariant
            i <= cur <= s.len(),
            parse_str_body(s@, i as int) == match parse_str_body(s@, cur as int) {
                Some((rest, e)) => Some((acc@ + rest, e)),
                None => None::<(Seq<char>, int)>,
            },
        decreases s.len() - cur,
    {
        if cur >= s.len() {
            return None;
        }
        let c = s[cur];
        if c == '"' {
            proof {
                assert(acc@ + Seq::<char>::empty() =~= acc@);
            }
            return Some((acc, cur + 1));
        } else if c == '\\' {
            if cur + 1 >= s.len() {
                return None;
            }
            let mark = s[cur + 1];
            if mark == 'u' {
                if s.len() - cur < 6 {
                    return None;
                }
                if !(hex_digit_q(s[cur + 2]) && hex_digit_q(s[cur + 3]) && hex_digit_q(
                    s[cur + 4],
                ) && hex_digit_q(s[cur + 5])) {
                    return None;
                }
                let v: u32 = hex_digit_val(s[cur + 2]) * 4096 + hex_digit_val(s[cur + 3]) * 256
                    + hex_digit_val(s[cur + 4]) * 16 + hex_digit_val(s[cur + 5]);
                if 0xD800 <= v && v <= 0xDFFF {
                    return None;
                }
                let u = char_of_scalar(v);
                proof {
                    vstd::utf8::char_u32_cast(u, v);
                }
                let ghost old_acc = acc@;
                acc.push(u);
                proof {
                    match parse_str_body(s@, cur as int + 6) {
                        Some((rest, e)) => {
                            assert(old_acc + (seq![u] + rest) =~= acc@ + rest);
                        },
                        None => {},
                    }
                }
                cur = cur + 6;
            } else {
                match unesc(mark) {
                    Some(u) => {
                        let ghost old_acc = acc@;
                        acc.push(u);
                        proof {
                            match parse_str_body(s@, cur as int + 2) {
                                Some((rest, e)) => {
                                    assert(old_acc + (seq![u] + rest) =~= acc@ + rest);
                                },
                                None => {},
                            }
                        }
                        cur = cur + 2;
                    },
                    None => {
                        return None;
                    },
                }
            }
        } else {
            let ghost old_acc = acc@;
            acc.push(c);
            proof {
                match parse_str_body(s@, cur as int + 1) {
                    Some((rest, e)) => {
                        assert(old_acc + (seq![c] + rest) =~= acc@ + rest);
                    },
                    None => {},
                }
            }
            cur = cur + 1;
        }
    }
}

/// Reads an optionally signed decimal integer.
fn read_int(s: &Vec<char>, i: usize) -> (r: Option<(i64, usize)>)
    requires
        i <= s.len(),
    ensures
        match r {
            Some((n, e)) => {
                &&& parse_int(s@, i as int) == Some((n as int, e as int))
                &&& i < e <= s.len()
            },
            None => parse_int(s@, i as int) is None,
        },
{
    let neg = i < s.len() && s[i] == '-';
    let start = if neg { i + 1 } else { i };
    let mut cur = start;
    let mut acc: u128 = 0;
    let mut over = false;
    while cur < s.len() && digit_char_q(s[cur])
        invariant
            i <= start <= cur <= s.len(),
            neg ==> start == i + 1 && i < s.len() && s@[i as int] == '-',
            !neg ==> start == i,
            digits_end(s@, start as int) == digits_end(s@, cur as int),
            digits_val(s@, start as int, cur as int) >= 0,
            !over ==> acc == digits_val(s@, start as int, cur as int) && acc
                <= 0x8000_0000_0000_0000u128,
            over ==> digits_val(s@, start as int, cur as int) > 0x8000_0000_0000_0000,
        decreases s.len() - cur,
    {
        let c = s[cur];
        let d: u128 = (c as u32 - 48) as u128;
        proof {
            assert(d == char_digit(s@[cur as int]));
            assert(digits_val(s@, start as int, cur as int + 1) == digits_val(
                s@,
                start as int,
                cur as int,
            ) * 10 + char_digit(s@[cur as int]));
        }
        if !over {
            let next = acc * 10 + d;
            if next > 0x8000_0000_0000_0000u128 {
                over = true;
            } else {
                acc = next;
            }
        } else {
            proof {
                let v = digits_val(s@, start as int, cur as int);
                assert(v * 10 >= v) by (nonlinear_arith)
                    requires
                        v > 0,
                ;
            }
        }
        cur = cur + 1;
    }
    proof {
        assert(digits_end(s@, cur as int) == cur);
    }
    if cur == start {
        return None;
    }
    let ghost v = digits_val(s@, start as int, cur as int);
    if over {
        return None;
    }
    if neg {
        if acc == 0x8000_0000_0000_0000u128 {
            Some((i64::MIN, cur))
        } else {
            Some((-(acc as i64), cur))
        }
    } else {
        if acc > 0x7fff_ffff_ffff_ffffu128 {
            None
        } else {
            Some((acc as i64, cur))
        }
    }
}

/// Reads one value starting exactly at `i`.
fn read_value(s: &Vec<char>, i: usize) -> (r: Option<(Json, usize)>)
    requires
        i <= s.len(),
    ensures
        match r {
            Some((j, e)) => {
                &&& parse_value(s@, i as int) == Some((j.jv(), e as int))
                &&& i < e <= s.len()
            },
            None => parse_value(s@, i as int) is None,
        },
    decreases s.len() - i, 0int,
{
    if i >= s.len() {
        return None;
    }
    let c = s[i];
    if c == 'n' {
        if s.len() - i >= 4 && s[i + 1] == 'u' && s[i + 2] == 'l' && s[i + 3] == 'l' {
            Some((Json::Null, i + 4))
        } else {
            None
        }
    } else if c == 't' {
        if s.len() - i >= 4 && s[i + 1] == 'r' && s[i + 2] == 'u' && s[i + 3] == 'e' {
            Some((Json::Bool(true), i + 4))
        } else {
            None
        }
    } else if c == 'f' {
        if s.len() - i >= 5 && s[i + 1] == 'a' && s[i + 2] == 'l' && s[i + 3] == 's' && s[i + 4]
            == 'e' {
            Some((Json::Bool(false), i + 5))
        } else {
            None
        }
    } else if c == '"' {
        match read_str_body(s, i + 1) {
            Some((content, e)) => Some((Json::Str(content), e)),
            None => None,
        }
    } else if c == '[' {
        let j = skip_ws_run(s, i + 1);
        if j < s.len() && s[j] == ']' {
            proof {
                assert(jv_seq(Seq::<Json>::empty()) =~= Seq::<JsonSpec>::empty());
            }
            Some((Json::Arr(Vec::new()), j + 1))
        } else {
            match read_items(s, i + 1) {
                Some((items, e)) => Some((Json::Arr(items), e)),
                None => None,
            }
        }
    } else if c == '{' {
        let j = skip_ws_run(s, i + 1);
        if j < s.len() && s[j] == '}' {
            proof {
                assert(jv_fields(Seq::<(Vec<char>, Json)>::empty()) =~= Seq::<(
                    Seq<char>,
                    JsonSpec,
                )>::empty());
            }
            Some((Json::Obj(Vec::new()), j + 1))
        } else {
            match read_fields(s, i + 1) {
                Some((fields, e)) => Some((Json::Obj(fields), e)),
                None => None,
            }
        }
    } else if c == '-' || digit_char_q(c) {
        match read_int(s, i) {
            Some((n, e)) => Some((Json::Int(n), e)),
            None => None,
        }
    } else {
        None
    }
}

/// Reads comma-separated values up to and including the closing bracket.
fn read_items(s: &Vec<char>, i: usize) -> (r: Option<(Vec<Json>, usize)>)
    requires
        i <= s.len(),
    ensures
        match r {
            Some((v, e)) => {
                &&& parse_items(s@, i as int) == Some((jv_seq(v@), e as int))
                &&& i < e <= s.len()
            },
            None => parse_items(s@, i as int) is None,
        },
    decreases s.len() - i, 1int,
{
    let a = skip_ws_run(s, i);
    match read_value(s, a) {
        None => None,
        Some((v, e)) => {
            let j = skip_ws_run(s, e);
            if j < s.len() && s[j] == ',' {
                match read_items(s, j + 1) {
                    Some((mut rest, end)) => {
                        let ghost rest_view = rest@;
                        rest.insert(0, v);
                        proof {
                            assert(rest@ =~= seq![v] + rest_view);
                            assert(rest@[0] == v);
                            assert(rest@.drop_first() =~= rest_view);
                            assert(jv_seq(rest@) =~= seq![v.jv()] + jv_seq(rest_view));
                        }
                        Some((rest, end))
                    },
                    None => None,
                }
            } else if j < s.len() && s[j] == ']' {
                let mut out: Vec<Json> = Vec::new();
                out.push(v);
                proof {
                    assert(out@[0] == v);
                    assert(out@.drop_first() =~= Seq::<Json>::empty());
                    assert(jv_seq(Seq::<Json>::empty()) =~= Seq::<JsonSpec>::empty());
                    assert(jv_seq(out@) == seq![out@[0].jv()] + jv_seq(out@.drop_first()));
                    assert(seq![v.jv()] + Seq::<JsonSpec>::empty() =~= seq![v.jv()]);
                    assert(jv_seq(out@) =~= seq![v.jv()]);
                }
                Some((out, j + 1))
            } else {
                None
            }
        },
    }
}

/// Reads `"key": value` members up to and including the closing brace.
fn read_fields(s: &Vec<char>, i: usize) -> (r: Option<(Vec<(Vec<char>, Json)>, usize)>)
    requires
        i <= s.len(),
    ensures
        match r {
            Some((v, e)) => {
                &&& parse_fields(s@, i as int) == Some((jv_fields(v@), e as int))
                &&& i < e <= s.len()
            },
            None => parse_fields(s@, i as int) is None,
        },
    decreases s.len() - i, 1int,
{
    let a = skip_ws_run(s, i);
    if a >= s.len() || s[a] != '"' {
        return None;
    }
    match read_str_body(s, a + 1) {
        None => None,
        Some((k, e1)) => {
            let c = skip_ws_run(s, e1);
            if !(c < s.len() && s[c] == ':') {
                return None;
            }
            let vstart = skip_ws_run(s, c + 1);
            match read_value(s, vstart) {
                None => None,
                Some((v, e)) => {
                    let j = skip_ws_run(s, e);
                    if j < s.len() && s[j] == ',' {
                        match read_fields(s, j + 1) {
                            Some((mut rest, end)) => {
                                let ghost rest_view = rest@;
                                let ghost kv = (k@, v.jv());
                                rest.insert(0, (k, v));
                                proof {
                                    assert(rest@[0].0@ == kv.0 && rest@[0].1 == v);
                                    assert(rest@.drop_first() =~= rest_view);
                                    assert(jv_fields(rest@) =~= seq![kv] + jv_fields(rest_view));
                                }
                                Some((rest, end))
                            },
                            None => None,
                        }
                    } else if j < s.len() && s[j] == '}' {
                        let ghost kv = (k@, v.jv());
                        let mut out: Vec<(Vec<char>, Json)> = Vec::new();
                        out.push((k, v));
                        proof {
                            assert(out@[0].0@ == kv.0 && out@[0].1 == v);
                            assert(out@.drop_first() =~= Seq::<(Vec<char>, Json)>::empty());
                            assert(jv_fields(Seq::<(Vec<char>, Json)>::empty()) =~= Seq::<(
                                Seq<char>,
                                JsonSpec,
                            )>::empty());
                            assert(jv_fields(out@) == seq![(out@[0].0@, out@[0].1.jv())]
                                + jv_fields(out@.drop_first()));
                            assert(seq![kv] + Seq::<(Seq<char>, JsonSpec)>::empty() =~= seq![kv]);
                            assert(jv_fields(out@) =~= seq![kv]);
                        }
                        Some((out, j + 1))
                    } else {
                        None
                    }
                },
            }
        },
    }
}

// ---------------------------------------------------------------------------
// Looking values up in an object.
// ---------------------------------------------------------------------------

/// The first value stored under `key`, scanning members in order.
pub open spec fn lookup(fields: Seq<(Seq<char>, JsonSpec)>, key: Seq<char>) -> Option<JsonSpec>
    decreases fields.len(),
{
    if fields.len() == 0 {
        None
    } else if fields[0].0 == key {
        Some(fields[0].1)
    } else {
        lookup(fields.drop_first(), key)
    }
}

/// The content of a string value; the empty sequence for any other value.
pub open spec fn str_content(v: JsonSpec) -> Seq<char> {
    match v {
        JsonSpec::Str(s) => s,
        _ => Seq::empty(),
    }
}

pub proof fn lemma_lookup_at(fields: Seq<(Seq<char>, JsonSpec)>, key: Seq<char>, m: int)
    requires
        0 <= m < fields.len(),
        forall|j: int| 0 <= j < m ==> (#[trigger] fields[j]).0 != key,
        fields[m].0 == key,
    ensures
        lookup(fields, key) == Some(fields[m].1),
    decreases m,
{
    if m > 0 {
        assert(fields[0].0 != key);
        let t = fields.drop_first();
        assert(forall|j: int| 0 <= j < m - 1 ==> (#[trigger] t[j]) == fields[j + 1]);
        assert(t[m - 1] == fields[m]);
        lemma_lookup_at(t, key, m - 1);
    }
}

pub proof fn lemma_lookup_none(fields: Seq<(Seq<char>, JsonSpec)>, key: Seq<char>)
    requires
        forall|j: int| 0 <= j < fields.len() ==> (#[trigger] fields[j]).0 != key,
    ensures
        lookup(fields, key) is None,
    decreases fields.len(),
{
    if fields.len() > 0 {
        let t = fields.drop_first();
        assert(forall|j: int| 0 <= j < t.len() ==> (#[trigger] t[j]) == fields[j + 1]);
        lemma_lookup_none(t, key);
    }
}

/// Finds the first member named `key`.
pub fn find_field<'a>(fields: &'a Vec<(Vec<char>, Json)>, key: &str) -> (r: Option<&'a Json>)
    ensures
        match r {
            Some(j) => lookup(jv_fields(fields@), key@) == Some(j.jv()),
            None => lookup(jv_fields(fields@), key@) is None,
        },
{
    let ghost jf = jv_fields(fields@);
    proof {
        lemma_jv_fields(fields@);
    }
    let mut k: usize = 0;
    while k < fields.len()
        invariant
            k <= fields.len(),
            jf == jv_fields(fields@),
            jf.len() == fields.len(),
            forall|j: int| 0 <= j < fields.len() ==> #[trigger] jf[j] == (
                fields@[j].0@,
                fields@[j].1.jv(),
            ),
            forall|j: int| 0 <= j < k ==> (#[trigger] jf[j]).0 != key@,
        decreases fields.len() - k,
    {
        if crate::text::chars_eq_str(&fields[k].0, key) {
            proof {
                lemma_lookup_at(jf, key@, k as int);
            }
            return Some(&fields[k].1);
        }
        k = k + 1;
    }
    proof {
        lemma_lookup_none(jf, key@);
    }
    None
}

// ---------------------------------------------------------------------------
// The executable writer: emit pieces of the canonical printed form.
// ---------------------------------------------------------------------------

/// Escaping distributes over appending one character.
proof fn lemma_esc_push(a: Seq<char>, c: char)
    ensures
        esc(a.push(c)) == esc(a) + esc_char(c),
    decreases a.len(),
{
    if a.len() == 0 {
        assert(a.push(c)[0] == c);
        assert(a.push(c).drop_first() =~= Seq::<char>::empty());
        assert(esc(Seq::<char>::empty()) =~= Seq::<char>::empty());
        assert(esc(a.push(c)) == esc_char(c) + esc(Seq::<char>::empty()));
        assert(esc_char(c) + Seq::<char>::empty() =~= esc_char(c));
        assert(esc(a) + esc_char(c) =~= esc_char(c));
    } else {
        assert(a.push(c)[0] == a[0]);
        assert(a.push(c).drop_first() =~= a.drop_first().push(c));
        lemma_esc_push(a.drop_first(), c);
        assert(esc(a.push(c)) == esc_char(a[0]) + (esc(a.drop_first()) + esc_char(c)));
        assert(esc_char(a[0]) + (esc(a.drop_first()) + esc_char(c)) =~= (esc_char(a[0]) + esc(
            a.drop_first(),
        )) + esc_char(c));
    }
}

/// Appends the printed form of `s` as a string value.
pub fn push_json_str(out: &mut Vec<char>, s: &str)
    ensures
        final(out)@ == old(out)@ + print_str(s@),
{
    let n = s.unicode_len();
    out.push('"');
    let mut i: usize = 0;
    while i < n
        invariant
            i <= n,
            n == s@.len(),
            out@ == old(out)@ + seq!['"'] + esc(s@.subrange(0, i as int)),
        decreases n - i,
    {
        let c = s.get_char(i);
        let ghost pre = s@.subrange(0, i as int);
        if c == '"' || c == '\\' {
            out.push('\\');
            out.push(c);
        } else if c == '\n' {
            out.push('\\');
            out.push('n');
        } else if c == '\t' {
            out.push('\\');
            out.push('t');
        } else if c == '\r' {
            out.push('\\');
            out.push('r');
        } else if c == '\u{8}' {
            out.push('\\');
            out.push('b');
        } else if c == '\u{c}' {
            out.push('\\');
            out.push('f');
        } else if (c as u32) < 32 {
            let u = c as u32;
            out.push('\\');
            out.push('u');
            out.push('0');
            out.push('0');
            out.push(hex_digit_char(u / 16));
            out.push(hex_digit_char(u % 16));
        } else {
            out.push(c);
        }
        proof {
            lemma_esc_push(pre, c);
            assert(pre.push(c) =~= s@.subrange(0, i + 1));
            assert(out@ =~= old(out)@ + seq!['"'] + esc(s@.subrange(0, i + 1)));
        }
        i = i + 1;
    }
    out.push('"');
    proof {
        assert(s@.subrange(0, n as int) =~= s@);
        assert(out@ =~= old(out)@ + print_str(s@));
    }
}

fn hex_digit_char(d: u32) -> (c: char)
    requires
        d < 16,
    ensures
        c == hex_char(d as int),
{
    if d == 0 { '0' }
    else if d == 1 { '1' }
    else if d == 2 { '2' }
    else if d == 3 { '3' }
    else if d == 4 { '4' }
    else if d == 5 { '5' }
    else if d == 6 { '6' }
    else if d == 7 { '7' }
    else if d == 8 { '8' }
    else if d == 9 { '9' }
    else if d == 10 { 'a' }
    else if d == 11 { 'b' }
    else if d == 12 { 'c' }
    else if d == 13 { 'd' }
    else if d == 14 { 'e' }
    else { 'f' }
}

fn nat_digit(d: u64) -> (c: char)
    requires
        d < 10,
    ensures
        c == digit_char(d as int),
{
    if d == 0 { '0' }
    else if d == 1 { '1' }
    else if d == 2 { '2' }
    else if d == 3 { '3' }
    else if d == 4 { '4' }
    else if d == 5 { '5' }
    else if d == 6 { '6' }
    else if d == 7 { '7' }
    else if d == 8 { '8' }
    else { '9' }
}

fn push_nat(out: &mut Vec<char>, n: u64)
    ensures
        final(out)@ == old(out)@ + print_nat(n as nat),
{
    let mut tmp: Vec<char> = Vec::new();
    let mut rem = n;
    if rem == 0 {
        out.push('0');
        proof {
            assert(print_nat(0) =~= seq!['0']);
            assert(out@ =~= old(out)@ + print_nat(0));
        }
        return;
    }
    while rem > 0
        invariant
            rem >= 0,
            rem > 0 ==> print_nat(n as nat) == print_nat(rem as nat) + tmp@,
            rem == 0 ==> print_nat(n as nat) == tmp@,
        decreases rem,
    {
        let d = rem % 10;
        let c = nat_digit(d);
        let ghost old_tmp = tmp@;
        tmp.insert(0, c);
        proof {
            assert(tmp@ =~= seq![c] + old_tmp);
            if rem >= 10 {
                assert(print_nat(rem as nat) == print_nat((rem as nat) / 10) + seq![digit_char(
                    ((rem as nat) % 10) as int,
                )]);
                assert(print_nat((rem / 10) as nat) + tmp@ =~= print_nat(rem as nat) + old_tmp);
            } else {
                vstd::arithmetic::div_mod::lemma_small_mod(rem as nat, 10);
                vstd::arithmetic::div_mod::lemma_basic_div(rem as int, 10);
                assert(print_nat(rem as nat) =~= seq![c]);
                assert(tmp@ =~= print_nat(rem as nat) + old_tmp);
            }
        }
        rem = rem / 10;
    }
    let ghost before = out@;
    out.append(&mut tmp);
    proof {
        assert(out@ == before + print_nat(n as nat));
    }
}

/// Appends the printed form of `n` as a number value.
pub fn push_json_int(out: &mut Vec<char>, n: i64)
    ensures
        final(out)@ == old(out)@ + print_int(n as int),
{
    if n >= 0 {
        push_nat(out, n as u64);
    } else {
        out.push('-');
        let ghost mid = out@;
        let mag: u64 = ((-(n + 1)) as u64) + 1;
        proof {
            assert(mag as int == -(n as int));
        }
        push_nat(out, mag);
        proof {
            assert(out@ =~= old(out)@ + (seq!['-'] + print_nat(mag as nat)));
        }
    }
}

/// Reads a whole text as one value with nothing but whitespace around it.
pub fn read_json(s: &Vec<char>) -> (r: Option<Json>)
    ensures
        match r {
            Some(j) => parse_json(s@) == Some(j.jv()),
            None => parse_json(s@) is None,
        },
{
    let i = skip_ws_run(s, 0);
    match read_value(s, i) {
        Some((v, e)) => {
            let t = skip_ws_run(s, e);
            if t == s.len() {
                Some(v)
            } else {
                None
            }
        },
        None => None,
    }
}

} // verus!

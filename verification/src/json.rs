//! The wire format of request and response bodies: a single flat JSON
//! object whose member values are strings, integers, other numbers,
//! booleans, null, or arrays of strings.
//!
//! The spec-level parser below *defines* the format; the executable
//! parser is proved to return exactly what the spec parser returns.

use vstd::prelude::*;

use crate::text::chars_eq;

verus! {

/// Spec-level value of one object member.
pub enum JsonFieldS {
    Null,
    Bool(bool),
    IntVal(int),
    NumRaw(Seq<char>),
    Str(Seq<char>),
    StrArr(Seq<Seq<char>>),
}

/// Executable value of one object member.
pub enum JsonField {
    Null,
    Bool(bool),
    Int(i64),
    NumRaw(Vec<char>),
    Str(Vec<char>),
    StrArr(Vec<Vec<char>>),
}

impl View for JsonField {
    type V = JsonFieldS;

    open spec fn view(&self) -> JsonFieldS {
        match self {
            JsonField::Null => JsonFieldS::Null,
            JsonField::Bool(b) => JsonFieldS::Bool(*b),
            JsonField::Int(n) => JsonFieldS::IntVal(*n as int),
            JsonField::NumRaw(v) => JsonFieldS::NumRaw(v@),
            JsonField::Str(v) => JsonFieldS::Str(v@),
            JsonField::StrArr(v) => JsonFieldS::StrArr(v.deep_view()),
        }
    }
}

/// A parsed top-level JSON object: its members in order.
pub struct JsonObj {
    pub fields: Vec<(Vec<char>, JsonField)>,
}

impl View for JsonObj {
    type V = Seq<(Seq<char>, JsonFieldS)>;

    open spec fn view(&self) -> Seq<(Seq<char>, JsonFieldS)> {
        self.fields@.map_values(|p: (Vec<char>, JsonField)| (p.0@, p.1@))
    }
}

// ---------------------------------------------------------------------
// The spec parser: the definition of the wire format.
// ---------------------------------------------------------------------

/// JSON insignificant whitespace.
pub open spec fn is_ws(c: char) -> bool {
    c == ' ' || c == '\t' || c == '\n' || c == '\r'
}

/// First position at or after `i` that does not hold whitespace.
pub open spec fn spec_skip_ws(s: Seq<char>, i: int) -> int
    decreases s.len() - i,
{
    if 0 <= i < s.len() && is_ws(s[i]) {
        spec_skip_ws(s, i + 1)
    } else {
        i
    }
}

/// Value of one hexadecimal digit.
pub open spec fn hex_val(c: char) -> Option<u32> {
    let u = c as u32;
    if 48 <= u <= 57 {
        Some((u - 48) as u32)
    } else if 97 <= u <= 102 {
        Some((u - 87) as u32)
    } else if 65 <= u <= 70 {
        Some((u - 55) as u32)
    } else {
        None
    }
}

/// Four hexadecimal digits starting at `i`.
pub open spec fn spec_hex4(s: Seq<char>, i: int) -> Option<u32> {
    if 0 <= i && i + 4 <= s.len() && hex_val(s[i]) is Some && hex_val(s[i + 1]) is Some
        && hex_val(s[i + 2]) is Some && hex_val(s[i + 3]) is Some {
        Some(
            (hex_val(s[i]).unwrap() * 0x1000 + hex_val(s[i + 1]).unwrap() * 0x100 + hex_val(
                s[i + 2],
            ).unwrap() * 0x10 + hex_val(s[i + 3]).unwrap()) as u32,
        )
    } else {
        None
    }
}

/// Decodes one escape sequence; `i` is the position just after the
/// backslash. Returns the decoded character and the position after the
/// escape. A high surrogate must be followed by a second `\u` escape
/// holding the low surrogate; a lone surrogate is rejected.
pub open spec fn spec_escape_code(s: Seq<char>, i: int) -> Option<(char, int)> {
    if i < 0 || i >= s.len() {
        None
    } else {
        let c = s[i];
        if c == '"' {
            Some(('"', i + 1))
        } else if c == '\\' {
            Some(('\\', i + 1))
        } else if c == '/' {
            Some(('/', i + 1))
        } else if c == 'b' {
            Some(('\u{8}', i + 1))
        } else if c == 'f' {
            Some(('\u{c}', i + 1))
        } else if c == 'n' {
            Some(('\n', i + 1))
        } else if c == 'r' {
            Some(('\r', i + 1))
        } else if c == 't' {
            Some(('\t', i + 1))
        } else if c == 'u' {
            match spec_hex4(s, i + 1) {
                Some(h) => if 0xD800 <= h < 0xDC00 {
                    if i + 11 <= s.len() && s[i + 5] == '\\' && s[i + 6] == 'u' {
                        match spec_hex4(s, i + 7) {
                            Some(l) => if 0xDC00 <= l < 0xE000 {
                                let code = 0x10000 + (h - 0xD800) * 0x400 + (l - 0xDC00);
                                Some(((code as u32) as char, i + 11))
                            } else {
                                None
                            },
                            None => None,
                        }
                    } else {
                        None
                    }
                } else if 0xDC00 <= h < 0xE000 {
                    None
                } else {
                    Some(((h as u32) as char, i + 5))
                },
                None => None,
            }
        } else {
            None
        }
    }
}

/// Decodes the rest of a string literal; `i` is inside the literal,
/// just after the opening quote or the last decoded character. Returns
/// the decoded content up to the closing quote and the position after
/// that quote. Unescaped control characters are rejected.
pub open spec fn spec_parse_str_rest(s: Seq<char>, i: int) -> Option<(Seq<char>, int)>
    decreases s.len() - i,
{
    if i < 0 || i >= s.len() {
        None
    } else {
        let c = s[i];
        if c == '"' {
            Some((Seq::empty(), i + 1))
        } else if c == '\\' {
            match spec_escape_code(s, i + 1) {
                Some((d, j)) => if i + 1 < j && j <= s.len() {
                    match spec_parse_str_rest(s, j) {
                        Some((rest, k)) => Some((seq![d] + rest, k)),
                        None => None,
                    }
                } else {
                    None
                },
                None => None,
            }
        } else if (c as u32) < 0x20 {
            None
        } else {
            match spec_parse_str_rest(s, i + 1) {
                Some((rest, k)) => Some((seq![c] + rest, k)),
                None => None,
            }
        }
    }
}

/// A whole string literal starting at `i`.
pub open spec fn spec_parse_string(s: Seq<char>, i: int) -> Option<(Seq<char>, int)> {
    if 0 <= i < s.len() && s[i] == '"' {
        spec_parse_str_rest(s, i + 1)
    } else {
        None
    }
}

/// A decimal digit.
pub open spec fn is_digit(c: char) -> bool {
    48 <= c as u32 <= 57
}

/// Value of a decimal digit.
pub open spec fn digit_val(c: char) -> int {
    c as u32 - 48
}

/// First position at or after `i` that does not hold a digit.
pub open spec fn spec_digits_end(s: Seq<char>, i: int) -> int
    decreases s.len() - i,
{
    if 0 <= i < s.len() && is_digit(s[i]) {
        spec_digits_end(s, i + 1)
    } else {
        i
    }
}

pub proof fn lemma_digits_end(s: Seq<char>, i: int)
    requires
        0 <= i <= s.len(),
    ensures
        i <= spec_digits_end(s, i) <= s.len(),
        forall|j: int| i <= j < spec_digits_end(s, i) ==> is_digit(#[trigger] s[j]),
    decreases s.len() - i,
{
    if i < s.len() && is_digit(s[i]) {
        lemma_digits_end(s, i + 1);
    }
}

/// Value of a digit sequence, most significant digit first.
pub open spec fn digits_val(ds: Seq<char>) -> int
    decreases ds.len(),
{
    if ds.len() == 0 {
        0
    } else {
        digits_val(ds.drop_last()) * 10 + digit_val(ds.last())
    }
}

/// End of the integer part whose first digit stands at `j`: a single
/// zero, or a nonzero digit followed by any further digits.
pub open spec fn spec_int_end(s: Seq<char>, j: int) -> Option<int> {
    if 0 <= j < s.len() && is_digit(s[j]) {
        if s[j] == '0' {
            Some(j + 1)
        } else {
            Some(spec_digits_end(s, j))
        }
    } else {
        None
    }
}

/// End of an optional fraction part starting at `i`.
pub open spec fn spec_frac_end(s: Seq<char>, i: int) -> Option<int> {
    if 0 <= i < s.len() && s[i] == '.' {
        if i + 1 < s.len() && is_digit(s[i + 1]) {
            Some(spec_digits_end(s, i + 1))
        } else {
            None
        }
    } else {
        Some(i)
    }
}

/// End of an optional exponent part starting at `i`.
pub open spec fn spec_exp_end(s: Seq<char>, i: int) -> Option<int> {
    if 0 <= i < s.len() && (s[i] == 'e' || s[i] == 'E') {
        let j = if i + 1 < s.len() && (s[i + 1] == '+' || s[i + 1] == '-') {
            i + 2
        } else {
            i + 1
        };
        if j < s.len() && is_digit(s[j]) {
            Some(spec_digits_end(s, j))
        } else {
            None
        }
    } else {
        Some(i)
    }
}

/// A number starting at `i`. A plain integer that fits a signed 64-bit
/// value becomes `IntVal`; any other well-formed number keeps its raw
/// text.
pub open spec fn spec_parse_number(s: Seq<char>, i: int) -> Option<(JsonFieldS, int)> {
    let j = if 0 <= i < s.len() && s[i] == '-' {
        i + 1
    } else {
        i
    };
    match spec_int_end(s, j) {
        Some(k) => match spec_frac_end(s, k) {
            Some(m) => match spec_exp_end(s, m) {
                Some(e) => if m == k && e == m {
                    let v = digits_val(s.subrange(j, k));
                    let sv = if j != i {
                        -v
                    } else {
                        v
                    };
                    if -0x8000_0000_0000_0000 <= sv <= 0x7fff_ffff_ffff_ffff {
                        Some((JsonFieldS::IntVal(sv), k))
                    } else {
                        Some((JsonFieldS::NumRaw(s.subrange(i, k)), k))
                    }
                } else {
                    Some((JsonFieldS::NumRaw(s.subrange(i, e)), e))
                },
                None => None,
            },
            None => None,
        },
        None => None,
    }
}

/// Items of a string array; `i` is at the start of an item, whitespace
/// already skipped.
pub open spec fn spec_parse_strarr_items(s: Seq<char>, i: int) -> Option<(Seq<Seq<char>>, int)>
    decreases s.len() - i,
{
    match spec_parse_string(s, i) {
        Some((item, j)) => {
            let k = spec_skip_ws(s, j);
            if 0 <= k < s.len() && s[k] == ',' {
                let n = spec_skip_ws(s, k + 1);
                if i < n && n <= s.len() {
                    match spec_parse_strarr_items(s, n) {
                        Some((rest, e)) => Some((seq![item] + rest, e)),
                        None => None,
                    }
                } else {
                    None
                }
            } else if 0 <= k < s.len() && s[k] == ']' {
                Some((seq![item], k + 1))
            } else {
                None
            }
        },
        None => None,
    }
}

/// An array of strings starting at `i`.
pub open spec fn spec_parse_strarr(s: Seq<char>, i: int) -> Option<(Seq<Seq<char>>, int)> {
    if 0 <= i < s.len() && s[i] == '[' {
        let j = spec_skip_ws(s, i + 1);
        if 0 <= j < s.len() && s[j] == ']' {
            Some((Seq::empty(), j + 1))
        } else {
            spec_parse_strarr_items(s, j)
        }
    } else {
        None
    }
}

/// One member value starting at `i`, whitespace already skipped.
pub open spec fn spec_parse_value(s: Seq<char>, i: int) -> Option<(JsonFieldS, int)> {
    if i < 0 || i >= s.len() {
        None
    } else {
        let c = s[i];
        if c == '"' {
            match spec_parse_string(s, i) {
                Some((v, j)) => Some((JsonFieldS::Str(v), j)),
                None => None,
            }
        } else if c == '[' {
            match spec_parse_strarr(s, i) {
                Some((v, j)) => Some((JsonFieldS::StrArr(v), j)),
                None => None,
            }
        } else if c == 't' {
            if i + 4 <= s.len() && s[i + 1] == 'r' && s[i + 2] == 'u' && s[i + 3] == 'e' {
                Some((JsonFieldS::Bool(true), i + 4))
            } else {
                None
            }
        } else if c == 'f' {
            if i + 5 <= s.len() && s[i + 1] == 'a' && s[i + 2] == 'l' && s[i + 3] == 's' && s[i + 4]
                == 'e' {
                Some((JsonFieldS::Bool(false), i + 5))
            } else {
                None
            }
        } else if c == 'n' {
            if i + 4 <= s.len() && s[i + 1] == 'u' && s[i + 2] == 'l' && s[i + 3] == 'l' {
                Some((JsonFieldS::Null, i + 4))
            } else {
                None
            }
        } else if c == '-' || is_digit(c) {
            spec_parse_number(s, i)
        } else {
            None
        }
    }
}

/// Members of an object; `i` is at the start of a key, whitespace
/// already skipped. Returns the members and the position after the
/// closing brace.
pub open spec fn spec_parse_members(s: Seq<char>, i: int) -> Option<
    (Seq<(Seq<char>, JsonFieldS)>, int),
>
    decreases s.len() - i,
{
    match spec_parse_string(s, i) {
        Some((key, j)) => {
            let k = spec_skip_ws(s, j);
            if 0 <= k < s.len() && s[k] == ':' {
                let v0 = spec_skip_ws(s, k + 1);
                match spec_parse_value(s, v0) {
                    Some((val, e)) => {
                        let p = spec_skip_ws(s, e);
                        if 0 <= p < s.len() && s[p] == ',' {
                            let n = spec_skip_ws(s, p + 1);
                            if i < n && n <= s.len() {
                                match spec_parse_members(s, n) {
                                    Some((rest, q)) => Some((seq![(key, val)] + rest, q)),
                                    None => None,
                                }
                            } else {
                                None
                            }
                        } else if 0 <= p < s.len() && s[p] == '}' {
                            Some((seq![(key, val)], p + 1))
                        } else {
                            None
                        }
                    },
                    None => None,
                }
            } else {
                None
            }
        },
        None => None,
    }
}

/// A whole body: one object, with nothing but whitespace around it.
pub open spec fn spec_parse_obj(s: Seq<char>) -> Option<Seq<(Seq<char>, JsonFieldS)>> {
    let i = spec_skip_ws(s, 0);
    if 0 <= i < s.len() && s[i] == '{' {
        let j = spec_skip_ws(s, i + 1);
        if 0 <= j < s.len() && s[j] == '}' {
            if spec_skip_ws(s, j + 1) == s.len() {
                Some(Seq::empty())
            } else {
                None
            }
        } else {
            match spec_parse_members(s, j) {
                Some((fs, e)) => if spec_skip_ws(s, e) == s.len() {
                    Some(fs)
                } else {
                    None
                },
                None => None,
            }
        }
    } else {
        None
    }
}

/// The value of the first member with the given key.
pub open spec fn spec_lookup(fs: Seq<(Seq<char>, JsonFieldS)>, key: Seq<char>) -> Option<JsonFieldS>
    decreases fs.len(),
{
    if fs.len() == 0 {
        None
    } else if fs[0].0 == key {
        Some(fs[0].1)
    } else {
        spec_lookup(fs.drop_first(), key)
    }
}

/// View of an in-order member list.
pub open spec fn fields_view(v: Seq<(Vec<char>, JsonField)>) -> Seq<(Seq<char>, JsonFieldS)> {
    v.map_values(|p: (Vec<char>, JsonField)| (p.0@, p.1@))
}

// ---------------------------------------------------------------------
// The executable parser.
// ---------------------------------------------------------------------

/// Relies on std's `char::from_u32`: it returns `Some` exactly on
/// Unicode scalar values, and the returned character carries the given
/// scalar value.
#[verifier::external_body]
fn char_from_u32(u: u32) -> (r: Option<char>)
    ensures
        r is Some <==> vstd::utf8::is_scalar(u),
        r matches Some(c) ==> c as u32 == u,
{
    char::from_u32(u)
}

fn is_ws_char(c: char) -> (r: bool)
    ensures
        r == is_ws(c),
{
    c == ' ' || c == '\t' || c == '\n' || c == '\r'
}

fn is_digit_char(c: char) -> (r: bool)
    ensures
        r == is_digit(c),
{
    let u = c as u32;
    48 <= u && u <= 57
}

fn skip_ws(s: &Vec<char>, i: usize) -> (r: usize)
    requires
        i <= s@.len(),
    ensures
        i <= r <= s@.len(),
        r as int == spec_skip_ws(s@, i as int),
{
    let mut j = i;
    while j < s.len() && is_ws_char(s[j])
        invariant
            i <= j <= s@.len(),
            spec_skip_ws(s@, i as int) == spec_skip_ws(s@, j as int),
        decreases s@.len() - j,
    {
        j = j + 1;
    }
    j
}

fn digits_end(s: &Vec<char>, i: usize) -> (r: usize)
    requires
        i <= s@.len(),
    ensures
        i <= r <= s@.len(),
        r as int == spec_digits_end(s@, i as int),
{
    let mut j = i;
    while j < s.len() && is_digit_char(s[j])
        invariant
            i <= j <= s@.len(),
            spec_digits_end(s@, i as int) == spec_digits_end(s@, j as int),
        decreases s@.len() - j,
    {
        j = j + 1;
    }
    j
}

fn hex_digit(c: char) -> (r: Option<u32>)
    ensures
        r == hex_val(c),
        r matches Some(v) ==> v <= 15,
{
    let u = c as u32;
    if 48 <= u && u <= 57 {
        Some(u - 48)
    } else if 97 <= u && u <= 102 {
        Some(u - 87)
    } else if 65 <= u && u <= 70 {
        Some(u - 55)
    } else {
        None
    }
}

fn parse_hex4(s: &Vec<char>, i: usize) -> (r: Option<u32>)
    requires
        i <= s@.len(),
    ensures
        r == spec_hex4(s@, i as int),
        r matches Some(v) ==> v <= 0xFFFF,
{
    if s.len() >= 4 && i <= s.len() - 4 {
        match (hex_digit(s[i]), hex_digit(s[i + 1]), hex_digit(s[i + 2]), hex_digit(s[i + 3])) {
            (Some(a), Some(b), Some(c), Some(d)) => Some(
                a * 0x1000 + b * 0x100 + c * 0x10 + d,
            ),
            _ => None,
        }
    } else {
        None
    }
}

fn escape_code(s: &Vec<char>, i: usize) -> (r: Option<(char, usize)>)
    requires
        i <= s@.len(),
    ensures
        match r {
            Some((c, j)) => spec_escape_code(s@, i as int) == Some((c, j as int)) && i < j
                <= s@.len(),
            None => spec_escape_code(s@, i as int) is None,
        },
{
    if i >= s.len() {
        return None;
    }
    let c = s[i];
    if c == '"' {
        Some(('"', i + 1))
    } else if c == '\\' {
        Some(('\\', i + 1))
    } else if c == '/' {
        Some(('/', i + 1))
    } else if c == 'b' {
        Some(('\u{8}', i + 1))
    } else if c == 'f' {
        Some(('\u{c}', i + 1))
    } else if c == 'n' {
        Some(('\n', i + 1))
    } else if c == 'r' {
        Some(('\r', i + 1))
    } else if c == 't' {
        Some(('\t', i + 1))
    } else if c == 'u' {
        match parse_hex4(s, i + 1) {
            Some(h) => {
                if 0xD800 <= h && h < 0xDC00 {
                    if s.len() >= 11 && i <= s.len() - 11 && s[i + 5] == '\\' && s[i + 6] == 'u' {
                        match parse_hex4(s, i + 7) {
                            Some(l) => {
                                if 0xDC00 <= l && l < 0xE000 {
                                    let code: u32 = 0x10000 + (h - 0xD800) * 0x400 + (l - 0xDC00);
                                    proof {
                                        assert(vstd::utf8::is_scalar(code));
                                    }
                                    match char_from_u32(code) {
                                        Some(ch) => {
                                            proof {
                                                vstd::utf8::char_u32_cast(ch, code);
                                            }
                                            Some((ch, i + 11))
                                        },
                                        None => None,
                                    }
                                } else {
                                    None
                                }
                            },
                            None => None,
                        }
                    } else {
                        None
                    }
                } else if 0xDC00 <= h && h < 0xE000 {
                    None
                } else {
                    proof {
                        assert(vstd::utf8::is_scalar(h));
                    }
                    match char_from_u32(h) {
                        Some(ch) => {
                            proof {
                                vstd::utf8::char_u32_cast(ch, h);
                            }
                            Some((ch, i + 5))
                        },
                        None => None,
                    }
                }
            },
            None => None,
        }
    } else {
        None
    }
}

fn parse_str_rest(s: &Vec<char>, i: usize) -> (r: Option<(Vec<char>, usize)>)
    requires
        i <= s@.len(),
    ensures
        match r {
            Some((v, j)) => spec_parse_str_rest(s@, i as int) == Some((v@, j as int)) && i < j
                <= s@.len(),
            None => spec_parse_str_rest(s@, i as int) is None,
        },
    decreases s@.len() - i,
{
    if i >= s.len() {
        return None;
    }
    let c = s[i];
    if c == '"' {
        let v: Vec<char> = Vec::new();
        proof {
            assert(v@ =~= Seq::<char>::empty());
        }
        Some((v, i + 1))
    } else if c == '\\' {
        match escape_code(s, i + 1) {
            Some((d, j)) => {
                match parse_str_rest(s, j) {
                    Some((rest, k)) => {
                        let ghost oldv = rest@;
                        let mut out = rest;
                        out.insert(0, d);
                        proof {
                            assert(out@ =~= seq![d] + oldv);
                        }
                        Some((out, k))
                    },
                    None => None,
                }
            },
            None => None,
        }
    } else if (c as u32) < 0x20 {
        None
    } else {
        match parse_str_rest(s, i + 1) {
            Some((rest, k)) => {
                let ghost oldv = rest@;
                let mut out = rest;
                out.insert(0, c);
                proof {
                    assert(out@ =~= seq![c] + oldv);
                }
                Some((out, k))
            },
            None => None,
        }
    }
}

fn parse_string(s: &Vec<char>, i: usize) -> (r: Option<(Vec<char>, usize)>)
    requires
        i <= s@.len(),
    ensures
        match r {
            Some((v, j)) => spec_parse_string(s@, i as int) == Some((v@, j as int)) && i < j
                <= s@.len(),
            None => spec_parse_string(s@, i as int) is None,
        },
{
    if i < s.len() && s[i] == '"' {
        parse_str_rest(s, i + 1)
    } else {
        None
    }
}

fn subrange_vec(s: &Vec<char>, a: usize, b: usize) -> (r: Vec<char>)
    requires
        a <= b <= s@.len(),
    ensures
        r@ == s@.subrange(a as int, b as int),
{
    let mut r: Vec<char> = Vec::new();
    let mut i = a;
    while i < b
        invariant
            a <= i <= b <= s@.len(),
            r@ == s@.subrange(a as int, i as int),
        decreases b - i,
    {
        r.push(s[i]);
        proof {
            assert(s@.subrange(a as int, i + 1 as int) =~= s@.subrange(a as int, i as int).push(
                s@[i as int],
            ));
        }
        i = i + 1;
    }
    proof {
        assert(r@ =~= s@.subrange(a as int, b as int));
    }
    r
}

fn parse_number(s: &Vec<char>, i: usize) -> (r: Option<(JsonField, usize)>)
    requires
        i <= s@.len(),
    ensures
        match r {
            Some((v, j)) => spec_parse_number(s@, i as int) == Some((v@, j as int)) && i <= j
                <= s@.len(),
            None => spec_parse_number(s@, i as int) is None,
        },
{
    let j = if i < s.len() && s[i] == '-' {
        i + 1
    } else {
        i
    };
    if !(j < s.len() && is_digit_char(s[j])) {
        return None;
    }
    let k = if s[j] == '0' {
        j + 1
    } else {
        digits_end(s, j)
    };
    proof {
        assert(spec_int_end(s@, j as int) == Some(k as int));
        lemma_digits_end(s@, j as int);
    }
    let m_opt: Option<usize> = if k < s.len() && s[k] == '.' {
        if k + 1 < s.len() && is_digit_char(s[k + 1]) {
            Some(digits_end(s, k + 1))
        } else {
            None
        }
    } else {
        Some(k)
    };
    let m = match m_opt {
        Some(m) => m,
        None => {
            return None;
        },
    };
    let e_opt: Option<usize> = if m < s.len() && (s[m] == 'e' || s[m] == 'E') {
        let j2 = if m + 1 < s.len() && (s[m + 1] == '+' || s[m + 1] == '-') {
            m + 2
        } else {
            m + 1
        };
        if j2 < s.len() && is_digit_char(s[j2]) {
            Some(digits_end(s, j2))
        } else {
            None
        }
    } else {
        Some(m)
    };
    let e = match e_opt {
        Some(e) => e,
        None => {
            return None;
        },
    };
    if m == k && e == m {
        // a plain integer: accumulate its magnitude
        let ghost digs = s@.subrange(j as int, k as int);
        proof {
            if s@[j as int] == '0' {
                assert(forall|t: int| j <= t < k ==> is_digit(#[trigger] s@[t]));
            }
        }
        let mut acc: u64 = 0;
        let mut over: bool = false;
        let mut idx = j;
        while idx < k
            invariant
                j <= idx <= k <= s@.len(),
                forall|t: int| j <= t < k ==> is_digit(#[trigger] s@[t]),
                !over ==> acc as int == digits_val(s@.subrange(j as int, idx as int)),
                over ==> digits_val(s@.subrange(j as int, idx as int)) > u64::MAX,
            decreases k - idx,
        {
            let d = s[idx];
            let dv: u64 = ((d as u32) - 48) as u64;
            proof {
                assert(s@.subrange(j as int, idx + 1 as int).drop_last() =~= s@.subrange(
                    j as int,
                    idx as int,
                ));
                assert(s@.subrange(j as int, idx + 1 as int).last() == s@[idx as int]);
            }
            if over {
                proof {
                    let prev = digits_val(s@.subrange(j as int, idx as int));
                    assert(prev * 10 + digit_val(s@[idx as int]) > u64::MAX);
                }
            } else {
                match acc.checked_mul(10) {
                    Some(t) => match t.checked_add(dv) {
                        Some(v) => {
                            acc = v;
                        },
                        None => {
                            over = true;
                        },
                    },
                    None => {
                        over = true;
                    },
                }
            }
            idx = idx + 1;
        }
        proof {
            assert(s@.subrange(j as int, k as int) == digs);
        }
        let neg = j != i;
        if over {
            let raw = subrange_vec(s, i, k);
            return Some((JsonField::NumRaw(raw), k));
        }
        if neg {
            if acc <= 0x8000_0000_0000_0000u64 {
                let v: i64 = if acc == 0x8000_0000_0000_0000u64 {
                    i64::MIN
                } else {
                    -(acc as i64)
                };
                Some((JsonField::Int(v), k))
            } else {
                let raw = subrange_vec(s, i, k);
                Some((JsonField::NumRaw(raw), k))
            }
        } else {
            if acc <= 0x7fff_ffff_ffff_ffffu64 {
                Some((JsonField::Int(acc as i64), k))
            } else {
                let raw = subrange_vec(s, i, k);
                Some((JsonField::NumRaw(raw), k))
            }
        }
    } else {
        let raw = subrange_vec(s, i, e);
        Some((JsonField::NumRaw(raw), e))
    }
}

fn parse_strarr_items(s: &Vec<char>, i: usize) -> (r: Option<(Vec<Vec<char>>, usize)>)
    requires
        i <= s@.len(),
    ensures
        match r {
            Some((v, j)) => spec_parse_strarr_items(s@, i as int) == Some((v.deep_view(), j as int))
                && i < j <= s@.len(),
            None => spec_parse_strarr_items(s@, i as int) is None,
        },
    decreases s@.len() - i,
{
    match parse_string(s, i) {
        Some((item, j)) => {
            let k = skip_ws(s, j);
            if k < s.len() && s[k] == ',' {
                let n = skip_ws(s, k + 1);
                if i < n {
                    match parse_strarr_items(s, n) {
                        Some((rest, e)) => {
                            let ghost gitem = item@;
                            let ghost grest = rest.deep_view();
                            let mut out = rest;
                            out.insert(0, item);
                            proof {
                                assert(out.deep_view() =~~= seq![gitem] + grest);
                            }
                            Some((out, e))
                        },
                        None => None,
                    }
                } else {
                    None
                }
            } else if k < s.len() && s[k] == ']' {
                let ghost gitem = item@;
                let mut out: Vec<Vec<char>> = Vec::new();
                out.push(item);
                proof {
                    assert(out.deep_view() =~~= seq![gitem]);
                }
                Some((out, k + 1))
            } else {
                None
            }
        },
        None => None,
    }
}

fn parse_strarr(s: &Vec<char>, i: usize) -> (r: Option<(Vec<Vec<char>>, usize)>)
    requires
        i <= s@.len(),
    ensures
        match r {
            Some((v, j)) => spec_parse_strarr(s@, i as int) == Some((v.deep_view(), j as int)) && i
                < j <= s@.len(),
            None => spec_parse_strarr(s@, i as int) is None,
        },
{
    if i < s.len() && s[i] == '[' {
        let j = skip_ws(s, i + 1);
        if j < s.len() && s[j] == ']' {
            let out: Vec<Vec<char>> = Vec::new();
            proof {
                assert(out.deep_view() =~~= Seq::<Seq<char>>::empty());
            }
            Some((out, j + 1))
        } else {
            parse_strarr_items(s, j)
        }
    } else {
        None
    }
}

fn parse_value(s: &Vec<char>, i: usize) -> (r: Option<(JsonField, usize)>)
    requires
        i <= s@.len(),
    ensures
        match r {
            Some((v, j)) => spec_parse_value(s@, i as int) == Some((v@, j as int)) && i <= j
                <= s@.len(),
            None => spec_parse_value(s@, i as int) is None,
        },
{
    if i >= s.len() {
        return None;
    }
    let c = s[i];
    if c == '"' {
        match parse_string(s, i) {
            Some((v, j)) => Some((JsonField::Str(v), j)),
            None => None,
        }
    } else if c == '[' {
        match parse_strarr(s, i) {
            Some((v, j)) => Some((JsonField::StrArr(v), j)),
            None => None,
        }
    } else if c == 't' {
        if s.len() - i >= 4 && s[i + 1] == 'r' && s[i + 2] == 'u' && s[i + 3] == 'e' {
            Some((JsonField::Bool(true), i + 4))
        } else {
            None
        }
    } else if c == 'f' {
        if s.len() - i >= 5 && s[i + 1] == 'a' && s[i + 2] == 'l' && s[i + 3] == 's' && s[i + 4]
            == 'e' {
            Some((JsonField::Bool(false), i + 5))
        } else {
            None
        }
    } else if c == 'n' {
        if s.len() - i >= 4 && s[i + 1] == 'u' && s[i + 2] == 'l' && s[i + 3] == 'l' {
            Some((JsonField::Null, i + 4))
        } else {
            None
        }
    } else if c == '-' || is_digit_char(c) {
        parse_number(s, i)
    } else {
        None
    }
}

fn parse_members(s: &Vec<char>, i: usize) -> (r: Option<(Vec<(Vec<char>, JsonField)>, usize)>)
    requires
        i <= s@.len(),
    ensures
        match r {
            Some((v, j)) => spec_parse_members(s@, i as int) == Some((fields_view(v@), j as int))
                && i < j <= s@.len(),
            None => spec_parse_members(s@, i as int) is None,
        },
    decreases s@.len() - i,
{
    match parse_string(s, i) {
        Some((key, j)) => {
            let k = skip_ws(s, j);
            if k < s.len() && s[k] == ':' {
                let v0 = skip_ws(s, k + 1);
                match parse_value(s, v0) {
                    Some((val, e)) => {
                        let p = skip_ws(s, e);
                        if p < s.len() && s[p] == ',' {
                            let n = skip_ws(s, p + 1);
                            if i < n {
                                match parse_members(s, n) {
                                    Some((rest, q)) => {
                                        let ghost gkey = key@;
                                        let ghost gval = val@;
                                        let ghost grest = fields_view(rest@);
                                        let mut out = rest;
                                        out.insert(0, (key, val));
                                        proof {
                                            assert(fields_view(out@) =~= seq![(gkey, gval)]
                                                + grest);
                                        }
                                        Some((out, q))
                                    },
                                    None => None,
                                }
                            } else {
                                None
                            }
                        } else if p < s.len() && s[p] == '}' {
                            let ghost gkey = key@;
                            let ghost gval = val@;
                            let mut out: Vec<(Vec<char>, JsonField)> = Vec::new();
                            out.push((key, val));
                            proof {
                                assert(fields_view(out@) =~= seq![(gkey, gval)]);
                            }
                            Some((out, p + 1))
                        } else {
                            None
                        }
                    },
                    None => None,
                }
            } else {
                None
            }
        },
        None => None,
    }
}

/// Parses a whole body against the wire format.
pub fn parse_json_obj(s: &Vec<char>) -> (r: Option<JsonObj>)
    ensures
        match r {
            Some(o) => spec_parse_obj(s@) == Some(o@),
            None => spec_parse_obj(s@) is None,
        },
{
    let i = skip_ws(s, 0);
    if i < s.len() && s[i] == '{' {
        let j = skip_ws(s, i + 1);
        if j < s.len() && s[j] == '}' {
            if skip_ws(s, j + 1) == s.len() {
                let fields: Vec<(Vec<char>, JsonField)> = Vec::new();
                proof {
                    assert(fields_view(fields@) =~= Seq::<(Seq<char>, JsonFieldS)>::empty());
                }
                Some(JsonObj { fields })
            } else {
                None
            }
        } else {
            match parse_members(s, j) {
                Some((fs, e)) => {
                    if skip_ws(s, e) == s.len() {
                        Some(JsonObj { fields: fs })
                    } else {
                        None
                    }
                },
                None => None,
            }
        }
    } else {
        None
    }
}

/// Finds the first member with the given key.
pub fn lookup_field<'a>(o: &'a JsonObj, key: &Vec<char>) -> (r: Option<&'a JsonField>)
    ensures
        match r {
            Some(f) => spec_lookup(o@, key@) == Some(f@),
            None => spec_lookup(o@, key@) is None,
        },
{
    let mut idx: usize = 0;
    proof {
        assert(o@.skip(0) =~= o@);
    }
    while idx < o.fields.len()
        invariant
            idx <= o.fields@.len(),
            o@.len() == o.fields@.len(),
            spec_lookup(o@, key@) == spec_lookup(o@.skip(idx as int), key@),
        decreases o.fields@.len() - idx,
    {
        proof {
            assert(o@[idx as int] == (o.fields@[idx as int].0@, o.fields@[idx as int].1@));
            assert(o@.skip(idx as int)[0] == o@[idx as int]);
        }
        if chars_eq(&o.fields[idx].0, key) {
            return Some(&o.fields[idx].1);
        }
        proof {
            assert(o@.skip(idx as int).drop_first() =~= o@.skip(idx + 1));
        }
        idx = idx + 1;
    }
    proof {
        assert(o@.skip(idx as int).len() == 0);
    }
    None
}

} // verus!

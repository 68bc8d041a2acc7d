//! Laws relating the body encoder to the body parser: what the encoder
//! writes, the parser reads back unchanged.

use vstd::prelude::*;
use crate::encode::spec_escape;
use crate::encode::spec_escape_char;
use crate::encode::spec_hex_char;
use crate::encode::spec_quoted;
use crate::encode::spec_u64_dec;
use crate::json::hex_val;
use crate::json::spec_escape_code;
use crate::json::spec_hex4;
use crate::json::spec_lookup;
use crate::json::spec_parse_members;
use crate::json::spec_parse_number;
use crate::json::spec_parse_obj;
use crate::json::spec_parse_str_rest;
use crate::json::spec_parse_string;
use crate::json::spec_parse_value;
use crate::json::spec_skip_ws;
use crate::json::spec_digits_end;
use crate::json::digits_val;
use crate::json::JsonFieldS;
use crate::users::spec_user_json;

verus! {

/// Escaping distributes over concatenation.
proof fn lemma_escape_concat(a: Seq<char>, b: Seq<char>)
    ensures
        spec_escape(a + b) == spec_escape(a) + spec_escape(b),
    decreases b.len(),
{
    if b.len() == 0 {
        assert(a + b =~= a);
        assert(spec_escape(a) + spec_escape(b) =~= spec_escape(a));
    } else {
        lemma_escape_concat(a, b.drop_last());
        assert((a + b).drop_last() =~= a + b.drop_last());
        assert((a + b).last() == b.last());
        assert(spec_escape(a) + spec_escape(b.drop_last()) + spec_escape_char(b.last())
            =~= spec_escape(a) + spec_escape(b));
    }
}

/// Escaping a string starts with the escape of its first character.
proof fn lemma_escape_head(u: Seq<char>)
    requires
        u.len() > 0,
    ensures
        spec_escape(u) == spec_escape_char(u[0]) + spec_escape(u.drop_first()),
{
    let h = seq![u[0]];
    assert(u =~= h + u.drop_first());
    lemma_escape_concat(h, u.drop_first());
    assert(h.drop_last() =~= Seq::<char>::empty());
    assert(spec_escape(Seq::<char>::empty()) =~= Seq::<char>::empty());
    assert(h.last() == u[0]);
    assert(spec_escape(h) =~= spec_escape_char(u[0]));
}

/// The hexadecimal digit characters read back as their values.
proof fn lemma_hex_char_val(d: int)
    requires
        0 <= d < 16,
    ensures
        hex_val(spec_hex_char(d)) == Some(d as u32),
{
}

/// What the escaper writes for one character, the escape decoder reads
/// back as that character, wherever it stands in a larger text.
proof fn lemma_escape_char_decodes(c: char, s: Seq<char>, i: int)
    requires
        0 <= i,
        i + spec_escape_char(c).len() <= s.len(),
        s.subrange(i, i + spec_escape_char(c).len()) == spec_escape_char(c),
        c == '"' || c == '\\' || (c as u32) < 0x20,
    ensures
        spec_escape_code(s, i + 1) == Some((c, i + spec_escape_char(c).len())),
{
    let ec = spec_escape_char(c);
    assert forall|t: int| 0 <= t < ec.len() implies s[i + t] == ec[t] by {
        assert(s.subrange(i, i + ec.len())[t] == s[i + t]);
    }
    if c == '"' || c == '\\' || c == '\u{8}' || c == '\u{c}' || c == '\n' || c == '\r' || c
        == '\t' {
        assert(s[i + 1] == ec[1]);
    } else {
        // the \u00.. form
        let u = c as u32;
        let d1 = u as int / 16;
        let d2 = u as int % 16;
        assert(ec == seq!['\\', 'u', '0', '0', spec_hex_char(d1), spec_hex_char(d2)]);
        assert(s[i + 1] == 'u');
        assert(s[i + 2] == '0');
        assert(s[i + 3] == '0');
        assert(s[i + 4] == spec_hex_char(d1));
        assert(s[i + 5] == spec_hex_char(d2));
        lemma_hex_char_val(d1);
        lemma_hex_char_val(d2);
        assert(hex_val('0') == Some(0u32));
        assert(spec_hex4(s, i + 2) == Some((d1 * 16 + d2) as u32));
        assert(d1 * 16 + d2 == u);
        assert(u < 0x20);
        vstd::utf8::char_u32_cast(c, u);
    }
}

/// What the escaper writes, the string parser reads back unchanged: the
/// escaped form of any value, followed by a closing quote, parses as
/// exactly that value. This is the echo guarantee for every string the
/// server writes into a body.
pub proof fn lemma_escaped_parses_back(u: Seq<char>, s: Seq<char>, i: int)
    requires
        0 <= i,
        i + spec_escape(u).len() + 1 <= s.len(),
        s.subrange(i, i + spec_escape(u).len()) == spec_escape(u),
        s[i + spec_escape(u).len()] == '"',
    ensures
        spec_parse_str_rest(s, i) == Some((u, i + spec_escape(u).len() + 1)),
    decreases u.len(),
{
    if u.len() == 0 {
        assert(spec_escape(u).len() == 0);
        assert(s[i] == '"');
        assert(u =~= Seq::<char>::empty());
    } else {
        let c = u[0];
        let rest = u.drop_first();
        lemma_escape_head(u);
        let ec = spec_escape_char(c);
        let er = spec_escape(rest);
        let i2 = i + ec.len();
        assert forall|t: int| 0 <= t < ec.len() implies s[i + t] == ec[t] by {
            assert(s.subrange(i, i + spec_escape(u).len())[t] == s[i + t]);
            assert((ec + er)[t] == ec[t]);
        }
        assert forall|t: int| 0 <= t < er.len() implies s[i2 + t] == er[t] by {
            assert(s.subrange(i, i + spec_escape(u).len())[ec.len() + t] == s[i + ec.len() + t]);
            assert((ec + er)[ec.len() + t] == er[t]);
        }
        assert(s.subrange(i2, i2 + er.len()) =~= er);
        assert(s[i2 + er.len()] == '"');
        lemma_escaped_parses_back(rest, s, i2);
        let end = i + spec_escape(u).len() + 1;
        assert(i2 + er.len() + 1 == end);
        if c == '"' || c == '\\' || (c as u32) < 0x20 {
            assert(s[i] == ec[0]);
            assert(s[i] == '\\');
            assert(s.subrange(i, i + ec.len()) =~= ec);
            lemma_escape_char_decodes(c, s, i);
            assert(spec_escape_code(s, i + 1) == Some((c, i2)));
            assert(spec_parse_str_rest(s, i) == Some((seq![c] + rest, end)));
        } else {
            assert(ec =~= seq![c]);
            assert(s[i] == ec[0]);
            assert(s[i] == c);
            assert(spec_parse_str_rest(s, i) == Some((seq![c] + rest, end)));
        }
        assert(seq![c] + rest =~= u);
    }
}

proof fn lemma_id_number_segment(s: Seq<char>)
    requires
        s.len() > 10,
        s[6] == '1',
        s[7] == '3',
        s[8] == '3',
        s[9] == '7',
        s[10] == ',',
    ensures
        spec_parse_value(s, 6) == Some((JsonFieldS::IntVal(1337), 10int)),
{
    assert(spec_digits_end(s, 10) == 10);
    assert(spec_digits_end(s, 9) == 10);
    assert(spec_digits_end(s, 8) == 10);
    assert(spec_digits_end(s, 7) == 10);
    assert(spec_digits_end(s, 6) == 10);
    let digs = s.subrange(6, 10);
    let d1 = seq!['1'];
    let d2 = seq!['1', '3'];
    let d3 = seq!['1', '3', '3'];
    let d4 = seq!['1', '3', '3', '7'];
    assert(digits_val(Seq::<char>::empty()) == 0);
    assert(d1.drop_last() =~= Seq::<char>::empty());
    assert(d1.last() == '1');
    assert(digits_val(d1) == 1);
    assert(d2.drop_last() =~= d1);
    assert(d2.last() == '3');
    assert(digits_val(d2) == 13);
    assert(d3.drop_last() =~= d2);
    assert(d3.last() == '3');
    assert(digits_val(d3) == 133);
    assert(d4.drop_last() =~= d3);
    assert(d4.last() == '7');
    assert(digits_val(d4) == 1337);
    assert(digs =~= d4);
    assert(digits_val(digs) == 1337);
    assert(spec_parse_number(s, 6) == Some((JsonFieldS::IntVal(1337), 10int)));
}

proof fn lemma_username_member(u: Seq<char>, s: Seq<char>)
    requires
        s.len() == 25 + spec_escape(u).len(),
        s[11] == '"',
        s[12] == 'u',
        s[13] == 's',
        s[14] == 'e',
        s[15] == 'r',
        s[16] == 'n',
        s[17] == 'a',
        s[18] == 'm',
        s[19] == 'e',
        s[20] == '"',
        s[21] == ':',
        s[22] == '"',
        s.subrange(23, 23 + spec_escape(u).len() as int) == spec_escape(u),
        s[23 + spec_escape(u).len() as int] == '"',
        s[24 + spec_escape(u).len() as int] == '}',
    ensures
        spec_parse_members(s, 11) == Some(
            (seq![("username"@, JsonFieldS::Str(u))], 25 + spec_escape(u).len() as int),
        ),
{
    reveal_strlit("username");
    let ee = spec_escape(u).len() as int;
    assert("username"@.len() == 8);
    assert(forall|t: int|
        0 <= t < 8 ==> #[trigger] ("username"@)[t] != '"' && ("username"@)[t] != '\\' && ((
        "username"@)[t] as u32) >= 0x20);
    lemma_escape_plain("username"@);
    assert(s.subrange(12, 20) =~= "username"@);
    lemma_escaped_parses_back("username"@, s, 12);
    assert(spec_parse_str_rest(s, 12) == Some(("username"@, 21int)));
    assert(spec_parse_string(s, 11) == Some(("username"@, 21int)));
    assert(spec_skip_ws(s, 21) == 21);
    assert(spec_skip_ws(s, 22) == 22);
    lemma_escaped_parses_back(u, s, 23);
    assert(spec_parse_str_rest(s, 23) == Some((u, 24 + ee)));
    assert(spec_parse_string(s, 22) == Some((u, 24 + ee)));
    assert(spec_parse_value(s, 22) == Some((JsonFieldS::Str(u), 24 + ee)));
    assert(spec_skip_ws(s, 24 + ee) == 24 + ee);
    assert(spec_parse_members(s, 11) == Some(
        (seq![("username"@, JsonFieldS::Str(u))], 25 + ee),
    ));
}

proof fn lemma_members_from_one(u: Seq<char>, s: Seq<char>)
    requires
        s.len() == 25 + spec_escape(u).len(),
        s[1] == '"',
        s[2] == 'i',
        s[3] == 'd',
        s[4] == '"',
        s[5] == ':',
        s[6] == '1',
        s[7] == '3',
        s[8] == '3',
        s[9] == '7',
        s[10] == ',',
        s[11] == '"',
        s[12] == 'u',
        s[13] == 's',
        s[14] == 'e',
        s[15] == 'r',
        s[16] == 'n',
        s[17] == 'a',
        s[18] == 'm',
        s[19] == 'e',
        s[20] == '"',
        s[21] == ':',
        s[22] == '"',
        s.subrange(23, 23 + spec_escape(u).len() as int) == spec_escape(u),
        s[23 + spec_escape(u).len() as int] == '"',
        s[24 + spec_escape(u).len() as int] == '}',
    ensures
        spec_parse_members(s, 1) == Some(
            (
                seq![("id"@, JsonFieldS::IntVal(1337))] + seq![("username"@, JsonFieldS::Str(u))],
                25 + spec_escape(u).len() as int,
            ),
        ),
{
    reveal_strlit("id");
    let ee = spec_escape(u).len() as int;
    // the key "id"
    assert("id"@.len() == 2);
    assert(forall|t: int|
        0 <= t < 2 ==> #[trigger] ("id"@)[t] != '"' && ("id"@)[t] != '\\' && (("id"@)[t] as u32)
            >= 0x20);
    lemma_escape_plain("id"@);
    assert(s.subrange(2, 4) =~= "id"@);
    lemma_escaped_parses_back("id"@, s, 2);
    assert(spec_parse_str_rest(s, 2) == Some(("id"@, 5int)));
    assert(spec_parse_string(s, 1) == Some(("id"@, 5int)));
    // the identifier value
    assert(spec_skip_ws(s, 5) == 5);
    assert(spec_skip_ws(s, 6) == 6);
    lemma_id_number_segment(s);
    // on to the second member
    assert(spec_skip_ws(s, 10) == 10);
    assert(spec_skip_ws(s, 11) == 11);
    lemma_username_member(u, s);
    assert(spec_parse_members(s, 1) == Some(
        (
            seq![("id"@, JsonFieldS::IntVal(1337))] + seq![("username"@, JsonFieldS::Str(u))],
            25 + ee,
        ),
    ));
}

proof fn lemma_user_json_layout(u: Seq<char>)
    ensures
        spec_user_json(1337, u).len() == 25 + spec_escape(u).len(),
        spec_user_json(1337, u)[0] == '{',
        spec_user_json(1337, u)[1] == '"',
        spec_user_json(1337, u)[2] == 'i',
        spec_user_json(1337, u)[3] == 'd',
        spec_user_json(1337, u)[4] == '"',
        spec_user_json(1337, u)[5] == ':',
        spec_user_json(1337, u)[6] == '1',
        spec_user_json(1337, u)[7] == '3',
        spec_user_json(1337, u)[8] == '3',
        spec_user_json(1337, u)[9] == '7',
        spec_user_json(1337, u)[10] == ',',
        spec_user_json(1337, u)[11] == '"',
        spec_user_json(1337, u)[12] == 'u',
        spec_user_json(1337, u)[13] == 's',
        spec_user_json(1337, u)[14] == 'e',
        spec_user_json(1337, u)[15] == 'r',
        spec_user_json(1337, u)[16] == 'n',
        spec_user_json(1337, u)[17] == 'a',
        spec_user_json(1337, u)[18] == 'm',
        spec_user_json(1337, u)[19] == 'e',
        spec_user_json(1337, u)[20] == '"',
        spec_user_json(1337, u)[21] == ':',
        spec_user_json(1337, u)[22] == '"',
        spec_user_json(1337, u).subrange(23, 23 + spec_escape(u).len() as int) == spec_escape(u),
        spec_user_json(1337, u)[23 + spec_escape(u).len() as int] == '"',
        spec_user_json(1337, u)[24 + spec_escape(u).len() as int] == '}',
{
    reveal_strlit("{\"id\":");
    reveal_strlit(",\"username\":");
    reveal_strlit("}");
    let a = "{\"id\":"@;
    let b = ",\"username\":"@;
    let z = "}"@;
    let d = spec_u64_dec(1337);
    let esc = spec_escape(u);
    let ee = esc.len() as int;
    let q = spec_quoted(u);
    let s = spec_user_json(1337, u);
    assert(spec_u64_dec(1) =~= seq!['1']);
    assert(spec_u64_dec(13) =~= seq!['1', '3']);
    assert(spec_u64_dec(133) =~= seq!['1', '3', '3']);
    assert(d =~= seq!['1', '3', '3', '7']);
    assert(a.len() == 6);
    assert(b.len() == 12);
    assert(z.len() == 1);
    assert(q.len() == 2 + ee);
    assert(s == a + d + b + q + z);
    assert(s.len() == 25 + ee);
    assert(s[0] == '{');
    assert(s[1] == '"');
    assert(s[2] == 'i');
    assert(s[3] == 'd');
    assert(s[4] == '"');
    assert(s[5] == ':');
    assert(s[6] == '1');
    assert(s[7] == '3');
    assert(s[8] == '3');
    assert(s[9] == '7');
    assert(s[10] == ',');
    assert(s[11] == '"');
    assert(s[12] == 'u');
    assert(s[13] == 's');
    assert(s[14] == 'e');
    assert(s[15] == 'r');
    assert(s[16] == 'n');
    assert(s[17] == 'a');
    assert(s[18] == 'm');
    assert(s[19] == 'e');
    assert(s[20] == '"');
    assert(s[21] == ':');
    assert(s[22] == q[0]);
    assert(s[22] == '"');
    assert(s[23 + ee] == q[1 + ee]);
    assert(s[23 + ee] == '"');
    assert(s[24 + ee] == '}');
    assert forall|t: int| 0 <= t < ee implies s[23 + t] == esc[t] by {
        assert(s[23 + t] == q[1 + t]);
        assert(q[1 + t] == esc[t]);
    }
    assert(s.subrange(23, 23 + ee) =~= esc);
}

/// The constant-identifier echo law: for every username value, the
/// created-user document parses back, under this crate's own wire
/// format, to an object whose `id` member is exactly 1337 and whose
/// `username` member is exactly the value that came in — escaping
/// loses nothing, and no other identifier is ever produced.
pub proof fn lemma_created_user_parses_back(u: Seq<char>)
    ensures
        spec_parse_obj(spec_user_json(1337, u)) == Some(
            seq![("id"@, JsonFieldS::IntVal(1337)), ("username"@, JsonFieldS::Str(u))],
        ),
        spec_lookup(spec_parse_obj(spec_user_json(1337, u)).unwrap(), "username"@) == Some(
            JsonFieldS::Str(u),
        ),
        spec_lookup(spec_parse_obj(spec_user_json(1337, u)).unwrap(), "id"@) == Some(
            JsonFieldS::IntVal(1337),
        ),
{
    reveal_strlit("id");
    reveal_strlit("username");
    let esc = spec_escape(u);
    let ee = esc.len() as int;
    let s = spec_user_json(1337, u);
    lemma_user_json_layout(u);
    assert(spec_skip_ws(s, 0) == 0);
    assert(spec_skip_ws(s, 1) == 1);
    lemma_members_from_one(u, s);
    assert(spec_skip_ws(s, 25 + ee) == 25 + ee);
    let fields = seq![("id"@, JsonFieldS::IntVal(1337)), ("username"@, JsonFieldS::Str(u))];
    assert(seq![("id"@, JsonFieldS::IntVal(1337))] + seq![("username"@, JsonFieldS::Str(u))]
        =~= fields);
    assert(spec_parse_obj(s) == Some(fields));
    // the two lookups
    assert("id"@.len() == 2);
    assert("username"@.len() == 8);
    assert("id"@ != "username"@);
    assert(fields.drop_first() =~= seq![("username"@, JsonFieldS::Str(u))]);
    assert(spec_lookup(fields, "id"@) == Some(JsonFieldS::IntVal(1337)));
    assert(fields[0].0 == "id"@);
    assert(spec_lookup(seq![("username"@, JsonFieldS::Str(u))], "username"@) == Some(
        JsonFieldS::Str(u),
    ));
    assert(spec_lookup(fields, "username"@) == Some(JsonFieldS::Str(u)));
}

/// A string of ordinary characters is written as itself.
proof fn lemma_escape_plain(w: Seq<char>)
    requires
        forall|t: int|
            0 <= t < w.len() ==> #[trigger] w[t] != '"' && w[t] != '\\' && (w[t] as u32) >= 0x20,
    ensures
        spec_escape(w) == w,
    decreases w.len(),
{
    if w.len() > 0 {
        lemma_escape_plain(w.drop_last());
        assert(spec_escape_char(w.last()) =~= seq![w.last()]);
        assert(spec_escape(w.drop_last()) + seq![w.last()] =~= w);
    }
}

} // verus!

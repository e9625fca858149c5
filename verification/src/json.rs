//! The JSON codec for the recipe and user transfer shapes.
//!
//! The service speaks one fixed, compact JSON form: fields in
//! declaration order, no blanks between tokens. The encoder escapes
//! `"` and `\`, writes `\n`, `\r`, `\t`, `\b` and `\f` for those
//! controls and `\u00XX` for the remaining control characters; the
//! decoder accepts exactly those escapes plus `\/`. Decoding an
//! encoded value gives the value back, which `lemma_recipe_roundtrip`
//! states and proves.

use vstd::prelude::*;
use crate::model::RecipeDto;
use crate::model::RecipeView;
use crate::model::UserDto;
use crate::model::UserView;
use crate::text::all_digits;
use crate::text::dec_digits;
use crate::text::digit_char;
use crate::text::digit_val;
use crate::text::digits_val;
use crate::text::is_digit_char;
use crate::text::lemma_dec_digits_val;
use crate::text::lemma_dec_digits_wf;
use crate::text::lemma_digits_val_leading_zeros;
use crate::text::lemma_pow10_concrete;
use crate::text::lemma_pow10_mono;
use crate::text::lemma_digits_val_lower;
use crate::text::lemma_digits_val_upper;
use crate::text::pow10;
use crate::text::u64_to_string;

verus! {

// ---------------------------------------------------------------
// Encoding
// ---------------------------------------------------------------

/// A hexadecimal digit character, lower or upper case.
pub open spec fn is_hex_digit_char(c: char) -> bool {
    is_digit_char(c) || c == 'a' || c == 'b' || c == 'c' || c == 'd' || c == 'e' || c == 'f' || c
        == 'A' || c == 'B' || c == 'C' || c == 'D' || c == 'E' || c == 'F'
}

/// The value of a hexadecimal digit character.
pub open spec fn hex_val(c: char) -> nat
    recommends
        is_hex_digit_char(c),
{
    if is_digit_char(c) {
        digit_val(c)
    } else if c == 'a' || c == 'A' {
        10
    } else if c == 'b' || c == 'B' {
        11
    } else if c == 'c' || c == 'C' {
        12
    } else if c == 'd' || c == 'D' {
        13
    } else if c == 'e' || c == 'E' {
        14
    } else {
        15
    }
}

/// The lower-case hexadecimal digit character for a value below
/// sixteen.
pub open spec fn hex_digit_char(d: nat) -> char
    recommends
        d < 16,
{
    if d < 10 {
        digit_char(d)
    } else if d == 10 {
        'a'
    } else if d == 11 {
        'b'
    } else if d == 12 {
        'c'
    } else if d == 13 {
        'd'
    } else if d == 14 {
        'e'
    } else {
        'f'
    }
}

/// The escaped form of one character inside a JSON string literal:
/// short escapes for the quote, the backslash and five controls, a
/// `\u00XX` escape for every other control character, the character
/// itself otherwise.
pub open spec fn sp_escape_char(c: char) -> Seq<char> {
    if c == '"' {
        seq!['\\', '"']
    } else if c == '\\' {
        seq!['\\', '\\']
    } else if c == '\n' {
        seq!['\\', 'n']
    } else if c == '\r' {
        seq!['\\', 'r']
    } else if c == '\t' {
        seq!['\\', 't']
    } else if c == '\u{0008}' {
        seq!['\\', 'b']
    } else if c == '\u{000C}' {
        seq!['\\', 'f']
    } else if (c as u32) < 32 {
        seq!['\\', 'u', '0', '0', hex_digit_char(((c as u32) / 16) as nat), hex_digit_char(
            ((c as u32) % 16) as nat,
        )]
    } else {
        seq![c]
    }
}

/// The escaped form of a text.
pub open spec fn sp_escape(s: Seq<char>) -> Seq<char>
    decreases s.len(),
{
    if s.len() == 0 {
        Seq::empty()
    } else {
        sp_escape_char(s[0]) + sp_escape(s.drop_first())
    }
}

/// A JSON string literal: quote, escaped text, quote.
pub open spec fn sp_json_string(s: Seq<char>) -> Seq<char> {
    seq!['"'] + sp_escape(s) + seq!['"']
}

/// A JSON number for a signed id.
pub open spec fn sp_json_i32(n: i32) -> Seq<char> {
    if n >= 0 {
        dec_digits(n as nat)
    } else {
        seq!['-'] + dec_digits((-(n as int)) as nat)
    }
}

/// The comma-separated items of a JSON array of strings.
pub open spec fn sp_arr_items(elems: Seq<Seq<char>>) -> Seq<char>
    decreases elems.len(),
{
    if elems.len() == 0 {
        Seq::empty()
    } else if elems.len() == 1 {
        sp_json_string(elems[0])
    } else {
        sp_json_string(elems[0]) + seq![','] + sp_arr_items(elems.drop_first())
    }
}

/// A JSON array of strings.
pub open spec fn sp_json_string_array(elems: Seq<Seq<char>>) -> Seq<char> {
    seq!['['] + sp_arr_items(elems) + seq![']']
}

/// The JSON object for a user.
pub open spec fn sp_json_user(u: UserView) -> Seq<char> {
    "{\"id\":"@ + dec_digits(u.id as nat) + ",\"name\":"@ + sp_json_string(u.name) + ",\"email\":"@
        + sp_json_string(u.email) + "}"@
}

/// The JSON object for a recipe.
pub open spec fn sp_json_recipe(r: RecipeView) -> Seq<char> {
    "{\"id\":"@ + sp_json_i32(r.id) + ",\"title\":"@ + sp_json_string(r.title) + ",\"ingredients\":"@
        + sp_json_string_array(r.ingredients) + ",\"instructions\":"@ + sp_json_string(
        r.instructions,
    ) + ",\"comments\":"@ + sp_json_string_array(r.comments) + ",\"created_by\":"@ + sp_json_user(
        r.created_by,
    ) + "}"@
}

/// The comma-separated items of a JSON array of recipes.
pub open spec fn sp_recipe_items(rs: Seq<RecipeView>) -> Seq<char>
    decreases rs.len(),
{
    if rs.len() == 0 {
        Seq::empty()
    } else if rs.len() == 1 {
        sp_json_recipe(rs[0])
    } else {
        sp_json_recipe(rs[0]) + seq![','] + sp_recipe_items(rs.drop_first())
    }
}

/// A JSON array of recipes.
pub open spec fn sp_json_recipe_list(rs: Seq<RecipeView>) -> Seq<char> {
    seq!['['] + sp_recipe_items(rs) + seq![']']
}

/// The lower-case hexadecimal digit character for a value below
/// sixteen.
fn hex_digit_to_str(d: u64) -> (r: &'static str)
    requires
        d < 16,
    ensures
        r@ =~= seq![hex_digit_char(d as nat)],
{
    proof {
        reveal_strlit("a");
        reveal_strlit("b");
        reveal_strlit("c");
        reveal_strlit("d");
        reveal_strlit("e");
        reveal_strlit("f");
    }
    if d < 10 {
        crate::text::digit_to_str(d)
    } else if d == 10 {
        "a"
    } else if d == 11 {
        "b"
    } else if d == 12 {
        "c"
    } else if d == 13 {
        "d"
    } else if d == 14 {
        "e"
    } else {
        "f"
    }
}

/// The escaped form of a text, built character by character.
fn escape_str(s: &str) -> (r: String)
    ensures
        r@ == sp_escape(s@),
    decreases s@.len(),
{
    let n = s.unicode_len();
    if n == 0 {
        String::new()
    } else {
        let c = s.get_char(0);
        let mut head = if c == '"' {
            String::from_str("\\\"")
        } else if c == '\\' {
            String::from_str("\\\\")
        } else if c == '\n' {
            String::from_str("\\n")
        } else if c == '\r' {
            String::from_str("\\r")
        } else if c == '\t' {
            String::from_str("\\t")
        } else if c == '\u{0008}' {
            String::from_str("\\b")
        } else if c == '\u{000C}' {
            String::from_str("\\f")
        } else if (c as u32) < 32 {
            let code: u32 = c as u32;
            let mut e = String::from_str("\\u00");
            e.append(hex_digit_to_str((code / 16) as u64));
            e.append(hex_digit_to_str((code % 16) as u64));
            e
        } else {
            String::from_str(s.substring_char(0, 1))
        };
        proof {
            reveal_strlit("\\\"");
            reveal_strlit("\\\\");
            reveal_strlit("\\n");
            reveal_strlit("\\r");
            reveal_strlit("\\t");
            reveal_strlit("\\b");
            reveal_strlit("\\f");
            reveal_strlit("\\u00");
            assert(s@.subrange(0, 1) =~= seq![s@[0]]);
            assert(head@ =~= sp_escape_char(s@[0]));
        }
        let tail = escape_str(s.substring_char(1, n));
        proof {
            assert(s@.subrange(1, s@.len() as int) =~= s@.drop_first());
        }
        head.append(tail.as_str());
        head
    }
}

/// A JSON string literal for the given text.
fn encode_json_string(s: &str) -> (r: String)
    ensures
        r@ == sp_json_string(s@),
{
    proof {
        reveal_strlit("\"");
    }
    let mut out = String::from_str("\"");
    let esc = escape_str(s);
    out.append(esc.as_str());
    out.append("\"");
    proof {
        assert(out@ =~= sp_json_string(s@));
    }
    out
}

/// The decimal text of a signed id.
pub(crate) fn encode_json_i32(n: i32) -> (r: String)
    ensures
        r@ == sp_json_i32(n),
{
    proof {
        reveal_strlit("-");
    }
    if n >= 0 {
        u64_to_string(n as u64)
    } else {
        let mag: u64 = (-(n as i64)) as u64;
        let mut out = String::from_str("-");
        let digits = u64_to_string(mag);
        out.append(digits.as_str());
        proof {
            assert(out@ =~= sp_json_i32(n));
        }
        out
    }
}

/// A JSON array of string literals.
fn encode_string_array(elems: &Vec<String>, from: usize) -> (r: String)
    requires
        from <= elems@.len(),
    ensures
        r@ == sp_arr_items(elems.deep_view().skip(from as int)),
    decreases elems@.len() - from,
{
    if from == elems.len() {
        proof {
            assert(elems.deep_view().skip(from as int) =~= Seq::<Seq<char>>::empty());
        }
        String::new()
    } else {
        let mut out = encode_json_string(elems[from].as_str());
        proof {
            assert(elems.deep_view().skip(from as int)[0] == elems@[from as int]@);
        }
        if from + 1 < elems.len() {
            proof {
                reveal_strlit(",");
            }
            out.append(",");
            let tail = encode_string_array(elems, from + 1);
            out.append(tail.as_str());
            proof {
                assert(elems.deep_view().skip(from as int).drop_first() =~= elems.deep_view().skip(
                    from as int + 1,
                ));
                assert(out@ =~= sp_arr_items(elems.deep_view().skip(from as int)));
            }
        } else {
            proof {
                assert(elems.deep_view().skip(from as int).len() == 1);
            }
        }
        out
    }
}

/// The JSON object text for a user.
pub fn encode_user(u: &UserDto) -> (r: String)
    ensures
        r@ == sp_json_user(u@),
{
    let mut out = String::from_str("{\"id\":");
    let id_text = u64_to_string(u.id as u64);
    out.append(id_text.as_str());
    out.append(",\"name\":");
    let name_text = encode_json_string(u.name.as_str());
    out.append(name_text.as_str());
    out.append(",\"email\":");
    let email_text = encode_json_string(u.email.as_str());
    out.append(email_text.as_str());
    out.append("}");
    proof {
        assert(out@ =~= sp_json_user(u@));
    }
    out
}

/// The JSON object text for a recipe.
pub fn encode_recipe(r: &RecipeDto) -> (res: String)
    ensures
        res@ == sp_json_recipe(r@),
{
    let mut out = String::from_str("{\"id\":");
    let id_text = encode_json_i32(r.id);
    out.append(id_text.as_str());
    out.append(",\"title\":");
    let title_text = encode_json_string(r.title.as_str());
    out.append(title_text.as_str());
    out.append(",\"ingredients\":");
    out.append("[");
    let ing_text = encode_string_array(&r.ingredients, 0);
    out.append(ing_text.as_str());
    out.append("]");
    out.append(",\"instructions\":");
    let instr_text = encode_json_string(r.instructions.as_str());
    out.append(instr_text.as_str());
    out.append(",\"comments\":");
    out.append("[");
    let com_text = encode_string_array(&r.comments, 0);
    out.append(com_text.as_str());
    out.append("]");
    out.append(",\"created_by\":");
    let user_text = encode_user(&r.created_by);
    out.append(user_text.as_str());
    out.append("}");
    proof {
        reveal_strlit("[");
        reveal_strlit("]");
        assert(r.ingredients.deep_view().skip(0) =~= r.ingredients.deep_view());
        assert(r.comments.deep_view().skip(0) =~= r.comments.deep_view());
        assert(out@ =~= sp_json_recipe(r@));
    }
    out
}

/// The JSON array text for a list of recipes.
pub fn encode_recipe_list(rs: &Vec<RecipeDto>) -> (r: String)
    ensures
        r@ == sp_json_recipe_list(rs.deep_view()),
{
    proof {
        reveal_strlit("[");
        reveal_strlit("]");
    }
    let mut out = String::from_str("[");
    let items = encode_recipe_items(rs, 0);
    out.append(items.as_str());
    out.append("]");
    proof {
        assert(rs.deep_view().skip(0) =~= rs.deep_view());
        assert(out@ =~= sp_json_recipe_list(rs.deep_view()));
    }
    out
}

/// The comma-separated items of a JSON array of recipes, from the
/// given position on.
fn encode_recipe_items(rs: &Vec<RecipeDto>, from: usize) -> (r: String)
    requires
        from <= rs@.len(),
    ensures
        r@ == sp_recipe_items(rs.deep_view().skip(from as int)),
    decreases rs@.len() - from,
{
    if from == rs.len() {
        proof {
            assert(rs.deep_view().skip(from as int) =~= Seq::<RecipeView>::empty());
        }
        String::new()
    } else {
        let mut out = encode_recipe(&rs[from]);
        proof {
            assert(rs.deep_view().skip(from as int)[0] == rs@[from as int]@);
        }
        if from + 1 < rs.len() {
            proof {
                reveal_strlit(",");
            }
            out.append(",");
            let tail = encode_recipe_items(rs, from + 1);
            out.append(tail.as_str());
            proof {
                assert(rs.deep_view().skip(from as int).drop_first() =~= rs.deep_view().skip(
                    from as int + 1,
                ));
                assert(out@ =~= sp_recipe_items(rs.deep_view().skip(from as int)));
            }
        } else {
            proof {
                assert(rs.deep_view().skip(from as int).len() == 1);
            }
        }
        out
    }
}

// ---------------------------------------------------------------
// Decoding: the grammar as a recursive-descent parser. Each spec
// parser takes the remaining text and gives the parsed value and
// the rest, or nothing when the text is not in the grammar.
// ---------------------------------------------------------------

/// The character stood for by an escape `\x`, if `x` is a legal one.
pub open spec fn sp_unescape_char(c: char) -> Option<char> {
    if c == '"' {
        Some('"')
    } else if c == '\\' {
        Some('\\')
    } else if c == 'n' {
        Some('\n')
    } else if c == 'r' {
        Some('\r')
    } else if c == 't' {
        Some('\t')
    } else if c == 'b' {
        Some('\u{0008}')
    } else if c == 'f' {
        Some('\u{000C}')
    } else if c == '/' {
        Some('/')
    } else {
        None
    }
}

/// The inside of a string literal, up to its closing quote.
pub open spec fn sp_parse_string_body(t: Seq<char>) -> Option<(Seq<char>, Seq<char>)>
    decreases t.len(),
{
    if t.len() == 0 {
        None
    } else if t[0] == '"' {
        Some((Seq::empty(), t.drop_first()))
    } else if t[0] == '\\' {
        if t.len() >= 2 && t[1] == 'u' {
            if t.len() >= 6 && is_hex_digit_char(t[2]) && is_hex_digit_char(t[3])
                && is_hex_digit_char(t[4]) && is_hex_digit_char(t[5]) {
                let v = (hex_val(t[2]) * 4096 + hex_val(t[3]) * 256 + hex_val(t[4]) * 16 + hex_val(
                    t[5],
                )) as u32;
                if v < 32 {
                    match sp_parse_string_body(t.skip(6)) {
                        Some(p) => Some((seq![v as char] + p.0, p.1)),
                        None => None,
                    }
                } else {
                    None
                }
            } else {
                None
            }
        } else if t.len() >= 2 {
            match sp_unescape_char(t[1]) {
                Some(c) => match sp_parse_string_body(t.skip(2)) {
                    Some(p) => Some((seq![c] + p.0, p.1)),
                    None => None,
                },
                None => None,
            }
        } else {
            None
        }
    } else {
        match sp_parse_string_body(t.drop_first()) {
            Some(p) => Some((seq![t[0]] + p.0, p.1)),
            None => None,
        }
    }
}

/// A whole string literal, quotes included.
pub open spec fn sp_parse_string(t: Seq<char>) -> Option<(Seq<char>, Seq<char>)> {
    if t.len() > 0 && t[0] == '"' {
        sp_parse_string_body(t.drop_first())
    } else {
        None
    }
}

pub proof fn lemma_sp_parse_string_shrinks(t: Seq<char>)
    ensures
        match sp_parse_string(t) {
            Some(p) => p.1.len() < t.len(),
            None => true,
        },
{
    lemma_sp_parse_string_body_shrinks(t.drop_first());
}

proof fn lemma_sp_parse_string_body_shrinks(t: Seq<char>)
    ensures
        match sp_parse_string_body(t) {
            Some(p) => p.1.len() < t.len(),
            None => true,
        },
    decreases t.len(),
{
    if t.len() >= 6 {
        lemma_sp_parse_string_body_shrinks(t.skip(6));
    }
    if t.len() >= 2 {
        lemma_sp_parse_string_body_shrinks(t.skip(2));
    }
    if t.len() > 0 {
        lemma_sp_parse_string_body_shrinks(t.drop_first());
    }
}

/// How many decimal digits the text starts with.
pub open spec fn sp_digit_run(t: Seq<char>) -> nat
    decreases t.len(),
{
    if t.len() == 0 || !is_digit_char(t[0]) {
        0
    } else {
        1 + sp_digit_run(t.drop_first())
    }
}

pub proof fn lemma_sp_digit_run_facts(t: Seq<char>)
    ensures
        sp_digit_run(t) <= t.len(),
        forall|j: int| 0 <= j < sp_digit_run(t) ==> is_digit_char(#[trigger] t[j]),
        sp_digit_run(t) < t.len() ==> !is_digit_char(t[sp_digit_run(t) as int]),
    decreases t.len(),
{
    if t.len() > 0 && is_digit_char(t[0]) {
        lemma_sp_digit_run_facts(t.drop_first());
        assert forall|j: int| 0 <= j < sp_digit_run(t) implies is_digit_char(#[trigger] t[j]) by {
            if j > 0 {
                assert(t[j] == t.drop_first()[j - 1]);
            }
        }
    }
}

/// An unsigned number: a maximal digit run within the value range.
pub open spec fn sp_parse_u32(t: Seq<char>) -> Option<(u32, Seq<char>)> {
    let k = sp_digit_run(t) as int;
    if k == 0 {
        None
    } else if digits_val(t.take(k)) <= u32::MAX {
        Some((digits_val(t.take(k)) as u32, t.skip(k)))
    } else {
        None
    }
}

/// A signed number: an optional minus, then a maximal digit run,
/// within the value range.
pub open spec fn sp_parse_i32(t: Seq<char>) -> Option<(i32, Seq<char>)> {
    if t.len() > 0 && t[0] == '-' {
        let u = t.drop_first();
        let k = sp_digit_run(u) as int;
        if k == 0 {
            None
        } else if digits_val(u.take(k)) <= 2147483648 {
            Some(((-(digits_val(u.take(k)) as int)) as i32, u.skip(k)))
        } else {
            None
        }
    } else {
        let k = sp_digit_run(t) as int;
        if k == 0 {
            None
        } else if digits_val(t.take(k)) <= i32::MAX {
            Some((digits_val(t.take(k)) as i32, t.skip(k)))
        } else {
            None
        }
    }
}

/// The rest of the text after a fixed token, when the text starts
/// with that token.
pub open spec fn sp_expect(t: Seq<char>, tok: Seq<char>) -> Option<Seq<char>> {
    if tok.len() <= t.len() && t.take(tok.len() as int) == tok {
        Some(t.skip(tok.len() as int))
    } else {
        None
    }
}

/// One or more comma-separated string literals, up to and past the
/// closing bracket.
pub open spec fn sp_parse_arr_elems(t: Seq<char>) -> Option<(Seq<Seq<char>>, Seq<char>)>
    decreases t.len(),
    via sp_parse_arr_elems_decreases
{
    match sp_parse_string(t) {
        None => None,
        Some(p) => if p.1.len() > 0 && p.1[0] == ',' {
            match sp_parse_arr_elems(p.1.drop_first()) {
                Some(q) => Some((seq![p.0] + q.0, q.1)),
                None => None,
            }
        } else if p.1.len() > 0 && p.1[0] == ']' {
            Some((seq![p.0], p.1.drop_first()))
        } else {
            None
        },
    }
}

#[via_fn]
proof fn sp_parse_arr_elems_decreases(t: Seq<char>) {
    lemma_sp_parse_string_shrinks(t);
}

/// A bracketed array of string literals.
pub open spec fn sp_parse_string_array(t: Seq<char>) -> Option<(Seq<Seq<char>>, Seq<char>)> {
    if t.len() > 0 && t[0] == '[' {
        let u = t.drop_first();
        if u.len() > 0 && u[0] == ']' {
            Some((Seq::empty(), u.drop_first()))
        } else {
            sp_parse_arr_elems(u)
        }
    } else {
        None
    }
}

/// A user object.
pub open spec fn sp_parse_user(t: Seq<char>) -> Option<(UserView, Seq<char>)> {
    match sp_expect(t, "{\"id\":"@) {
        None => None,
        Some(t1) => match sp_parse_u32(t1) {
            None => None,
            Some((id, t2)) => match sp_expect(t2, ",\"name\":"@) {
                None => None,
                Some(t3) => match sp_parse_string(t3) {
                    None => None,
                    Some((name, t4)) => match sp_expect(t4, ",\"email\":"@) {
                        None => None,
                        Some(t5) => match sp_parse_string(t5) {
                            None => None,
                            Some((email, t6)) => match sp_expect(t6, "}"@) {
                                None => None,
                                Some(t7) => Some((UserView { id, name, email }, t7)),
                            },
                        },
                    },
                },
            },
        },
    }
}

/// A recipe object.
pub open spec fn sp_parse_recipe(t: Seq<char>) -> Option<(RecipeView, Seq<char>)> {
    match sp_expect(t, "{\"id\":"@) {
        None => None,
        Some(t1) => match sp_parse_i32(t1) {
            None => None,
            Some((id, t2)) => match sp_expect(t2, ",\"title\":"@) {
                None => None,
                Some(t3) => match sp_parse_string(t3) {
                    None => None,
                    Some((title, t4)) => match sp_expect(t4, ",\"ingredients\":"@) {
                        None => None,
                        Some(t5) => match sp_parse_string_array(t5) {
                            None => None,
                            Some((ingredients, t6)) => match sp_expect(t6, ",\"instructions\":"@) {
                                None => None,
                                Some(t7) => match sp_parse_string(t7) {
                                    None => None,
                                    Some((instructions, t8)) => match sp_expect(
                                        t8,
                                        ",\"comments\":"@,
                                    ) {
                                        None => None,
                                        Some(t9) => match sp_parse_string_array(t9) {
                                            None => None,
                                            Some((comments, t10)) => match sp_expect(
                                                t10,
                                                ",\"created_by\":"@,
                                            ) {
                                                None => None,
                                                Some(t11) => match sp_parse_user(t11) {
                                                    None => None,
                                                    Some((created_by, t12)) => match sp_expect(
                                                        t12,
                                                        "}"@,
                                                    ) {
                                                        None => None,
                                                        Some(t13) => Some(
                                                            (
                                                                RecipeView {
                                                                    id,
                                                                    title,
                                                                    ingredients,
                                                                    instructions,
                                                                    comments,
                                                                    created_by,
                                                                },
                                                                t13,
                                                            ),
                                                        ),
                                                    },
                                                },
                                            },
                                        },
                                    },
                                },
                            },
                        },
                    },
                },
            },
        },
    }
}

/// A whole text that is exactly one recipe object.
pub open spec fn sp_decode_recipe(t: Seq<char>) -> Option<RecipeView> {
    match sp_parse_recipe(t) {
        Some((v, rest)) => if rest.len() == 0 {
            Some(v)
        } else {
            None
        },
        None => None,
    }
}

/// The single-character text stood for by an escape `\x`.
fn unescape_str(e: char) -> (r: Option<&'static str>)
    ensures
        match r {
            Some(s) => sp_unescape_char(e) is Some && s@ =~= seq![sp_unescape_char(e)->Some_0],
            None => sp_unescape_char(e) is None,
        },
{
    proof {
        reveal_strlit("\"");
        reveal_strlit("\\");
        reveal_strlit("\n");
        reveal_strlit("\r");
        reveal_strlit("\t");
        reveal_strlit("\u{0008}");
        reveal_strlit("\u{000C}");
        reveal_strlit("/");
    }
    if e == '"' {
        Some("\"")
    } else if e == '\\' {
        Some("\\")
    } else if e == 'n' {
        Some("\n")
    } else if e == 'r' {
        Some("\r")
    } else if e == 't' {
        Some("\t")
    } else if e == 'b' {
        Some("\u{0008}")
    } else if e == 'f' {
        Some("\u{000C}")
    } else if e == '/' {
        Some("/")
    } else {
        None
    }
}

/// The value of a hexadecimal digit character, if it is one.
fn hex_char_val(c: char) -> (r: Option<u64>)
    ensures
        match r {
            Some(v) => is_hex_digit_char(c) && v as nat == hex_val(c) && v < 16,
            None => !is_hex_digit_char(c),
        },
{
    if c == '0' {
        Some(0)
    } else if c == '1' {
        Some(1)
    } else if c == '2' {
        Some(2)
    } else if c == '3' {
        Some(3)
    } else if c == '4' {
        Some(4)
    } else if c == '5' {
        Some(5)
    } else if c == '6' {
        Some(6)
    } else if c == '7' {
        Some(7)
    } else if c == '8' {
        Some(8)
    } else if c == '9' {
        Some(9)
    } else if c == 'a' || c == 'A' {
        Some(10)
    } else if c == 'b' || c == 'B' {
        Some(11)
    } else if c == 'c' || c == 'C' {
        Some(12)
    } else if c == 'd' || c == 'D' {
        Some(13)
    } else if c == 'e' || c == 'E' {
        Some(14)
    } else if c == 'f' || c == 'F' {
        Some(15)
    } else {
        None
    }
}

/// The one-character text of a control character, by its value.
fn ctrl_char_str(v: u64) -> (r: &'static str)
    requires
        v < 32,
    ensures
        r@ =~= seq![((v as u32) as char)],
{
    proof {
        broadcast use vstd::utf8::char_u32_cast;

        reveal_strlit("\u{0000}");
        reveal_strlit("\u{0001}");
        reveal_strlit("\u{0002}");
        reveal_strlit("\u{0003}");
        reveal_strlit("\u{0004}");
        reveal_strlit("\u{0005}");
        reveal_strlit("\u{0006}");
        reveal_strlit("\u{0007}");
        reveal_strlit("\u{0008}");
        reveal_strlit("\u{0009}");
        reveal_strlit("\u{000A}");
        reveal_strlit("\u{000B}");
        reveal_strlit("\u{000C}");
        reveal_strlit("\u{000D}");
        reveal_strlit("\u{000E}");
        reveal_strlit("\u{000F}");
        reveal_strlit("\u{0010}");
        reveal_strlit("\u{0011}");
        reveal_strlit("\u{0012}");
        reveal_strlit("\u{0013}");
        reveal_strlit("\u{0014}");
        reveal_strlit("\u{0015}");
        reveal_strlit("\u{0016}");
        reveal_strlit("\u{0017}");
        reveal_strlit("\u{0018}");
        reveal_strlit("\u{0019}");
        reveal_strlit("\u{001A}");
        reveal_strlit("\u{001B}");
        reveal_strlit("\u{001C}");
        reveal_strlit("\u{001D}");
        reveal_strlit("\u{001E}");
        reveal_strlit("\u{001F}");
    }
    if v == 0 {
        "\u{0000}"
    } else if v == 1 {
        "\u{0001}"
    } else if v == 2 {
        "\u{0002}"
    } else if v == 3 {
        "\u{0003}"
    } else if v == 4 {
        "\u{0004}"
    } else if v == 5 {
        "\u{0005}"
    } else if v == 6 {
        "\u{0006}"
    } else if v == 7 {
        "\u{0007}"
    } else if v == 8 {
        "\u{0008}"
    } else if v == 9 {
        "\u{0009}"
    } else if v == 10 {
        "\u{000A}"
    } else if v == 11 {
        "\u{000B}"
    } else if v == 12 {
        "\u{000C}"
    } else if v == 13 {
        "\u{000D}"
    } else if v == 14 {
        "\u{000E}"
    } else if v == 15 {
        "\u{000F}"
    } else if v == 16 {
        "\u{0010}"
    } else if v == 17 {
        "\u{0011}"
    } else if v == 18 {
        "\u{0012}"
    } else if v == 19 {
        "\u{0013}"
    } else if v == 20 {
        "\u{0014}"
    } else if v == 21 {
        "\u{0015}"
    } else if v == 22 {
        "\u{0016}"
    } else if v == 23 {
        "\u{0017}"
    } else if v == 24 {
        "\u{0018}"
    } else if v == 25 {
        "\u{0019}"
    } else if v == 26 {
        "\u{001A}"
    } else if v == 27 {
        "\u{001B}"
    } else if v == 28 {
        "\u{001C}"
    } else if v == 29 {
        "\u{001D}"
    } else if v == 30 {
        "\u{001E}"
    } else {
        "\u{001F}"
    }
}

/// The inside of a string literal, up to its closing quote.
fn parse_string_body<'a>(t: &'a str) -> (r: Option<(String, &'a str)>)
    ensures
        match r {
            Some(p) => sp_parse_string_body(t@) == Some((p.0@, p.1@)),
            None => sp_parse_string_body(t@) is None,
        },
    decreases t@.len(),
{
    let n = t.unicode_len();
    if n == 0 {
        return None;
    }
    let c = t.get_char(0);
    if c == '"' {
        let rest = t.substring_char(1, n);
        proof {
            assert(rest@ =~= t@.drop_first());
        }
        Some((String::new(), rest))
    } else if c == '\\' {
        if n < 2 {
            return None;
        }
        if t.get_char(1) == 'u' {
            if n < 6 {
                return None;
            }
            let h2 = hex_char_val(t.get_char(2));
            let h3 = hex_char_val(t.get_char(3));
            let h4 = hex_char_val(t.get_char(4));
            let h5 = hex_char_val(t.get_char(5));
            return match (h2, h3, h4, h5) {
                (Some(a), Some(b), Some(x), Some(y)) => {
                    let v: u64 = a * 4096 + b * 256 + x * 16 + y;
                    if v < 32 {
                        let tail_in = t.substring_char(6, n);
                        proof {
                            assert(tail_in@ =~= t@.skip(6));
                        }
                        match parse_string_body(tail_in) {
                            None => None,
                            Some((s, rest)) => {
                                let mut out = String::from_str(ctrl_char_str(v));
                                out.append(s.as_str());
                                proof {
                                    assert(out@ =~= seq![((v as u32) as char)] + s@);
                                }
                                Some((out, rest))
                            },
                        }
                    } else {
                        None
                    }
                },
                _ => None,
            };
        }
        match unescape_str(t.get_char(1)) {
            None => None,
            Some(head) => {
                let tail_in = t.substring_char(2, n);
                proof {
                    assert(tail_in@ =~= t@.skip(2));
                }
                match parse_string_body(tail_in) {
                    None => None,
                    Some((s, rest)) => {
                        let mut out = String::from_str(head);
                        out.append(s.as_str());
                        proof {
                            assert(out@ =~= seq![sp_unescape_char(t@[1])->Some_0] + s@);
                        }
                        Some((out, rest))
                    },
                }
            },
        }
    } else {
        let tail_in = t.substring_char(1, n);
        proof {
            assert(tail_in@ =~= t@.drop_first());
        }
        match parse_string_body(tail_in) {
            None => None,
            Some((s, rest)) => {
                let mut out = String::from_str(t.substring_char(0, 1));
                out.append(s.as_str());
                proof {
                    assert(t@.subrange(0, 1) =~= seq![t@[0]]);
                    assert(out@ =~= seq![t@[0]] + s@);
                }
                Some((out, rest))
            },
        }
    }
}

/// A whole string literal, quotes included.
fn parse_json_string<'a>(t: &'a str) -> (r: Option<(String, &'a str)>)
    ensures
        match r {
            Some(p) => sp_parse_string(t@) == Some((p.0@, p.1@)),
            None => sp_parse_string(t@) is None,
        },
{
    let n = t.unicode_len();
    if n == 0 {
        return None;
    }
    if t.get_char(0) != '"' {
        return None;
    }
    let body = t.substring_char(1, n);
    proof {
        assert(body@ =~= t@.drop_first());
    }
    parse_string_body(body)
}

/// The rest of the text after a fixed token.
fn expect_tok<'a>(t: &'a str, tok: &str) -> (r: Option<&'a str>)
    ensures
        match r {
            Some(rest) => sp_expect(t@, tok@) == Some(rest@),
            None => sp_expect(t@, tok@) is None,
        },
{
    let n = t.unicode_len();
    let k = tok.unicode_len();
    if k > n {
        return None;
    }
    let pre = t.substring_char(0, k);
    if crate::text::str_eq(pre, tok) {
        let rest = t.substring_char(k, n);
        proof {
            assert(t@.take(tok@.len() as int) == pre@);
            assert(rest@ =~= t@.skip(tok@.len() as int));
        }
        Some(rest)
    } else {
        proof {
            assert(t@.take(tok@.len() as int) =~= pre@);
        }
        None
    }
}

/// Whether a character is a decimal digit.
fn is_digit(c: char) -> (r: bool)
    ensures
        r == is_digit_char(c),
{
    c == '0' || c == '1' || c == '2' || c == '3' || c == '4' || c == '5' || c == '6' || c == '7'
        || c == '8' || c == '9'
}

/// The value of a decimal digit character.
fn digit_value(c: char) -> (r: u64)
    requires
        is_digit_char(c),
    ensures
        r as nat == digit_val(c),
{
    if c == '0' {
        0
    } else if c == '1' {
        1
    } else if c == '2' {
        2
    } else if c == '3' {
        3
    } else if c == '4' {
        4
    } else if c == '5' {
        5
    } else if c == '6' {
        6
    } else if c == '7' {
        7
    } else if c == '8' {
        8
    } else {
        9
    }
}

/// How many decimal digits the text starts with.
pub(crate) fn digit_run_end(t: &str) -> (k: usize)
    ensures
        k as nat == sp_digit_run(t@),
    decreases t@.len(),
{
    let n = t.unicode_len();
    if n == 0 || !is_digit(t.get_char(0)) {
        0
    } else {
        let tail = t.substring_char(1, n);
        proof {
            assert(tail@ =~= t@.drop_first());
            lemma_sp_digit_run_facts(t@.drop_first());
        }
        1 + digit_run_end(tail)
    }
}

/// A maximal run of digits as a number, when its value is small
/// enough for any id (at most the largest unsigned 32-bit value).
pub(crate) fn parse_digits<'a>(t: &'a str) -> (r: Option<(u64, &'a str)>)
    ensures
        ({
            let k = sp_digit_run(t@) as int;
            match r {
                Some(p) => k > 0 && p.0 as nat == digits_val(t@.take(k)) && p.0 <= u32::MAX as u64
                    && p.1@ == t@.skip(k),
                None => k == 0 || digits_val(t@.take(k)) > u32::MAX as nat,
            }
        }),
{
    let n = t.unicode_len();
    let k = digit_run_end(t);
    proof {
        lemma_sp_digit_run_facts(t@);
    }
    if k == 0 {
        return None;
    }
    let ghost d: Seq<char> = t@.take(k as int);
    proof {
        assert(all_digits(d));
    }
    // Skip leading zeros; they do not change the value.
    let mut z: usize = 0;
    while z < k && t.get_char(z) == '0'
        invariant
            0 <= z <= k,
            k <= n,
            n == t@.len(),
            forall|j: int| 0 <= j < z ==> t@[j] == '0',
        decreases k - z,
    {
        z = z + 1;
    }
    proof {
        assert(forall|j: int| 0 <= j < z ==> d[j] == '0');
        lemma_digits_val_leading_zeros(d, z as int);
        lemma_pow10_concrete();
    }
    let rest = t.substring_char(k, n);
    proof {
        assert(rest@ =~= t@.skip(k as int));
    }
    if z == k {
        proof {
            assert(d.skip(z as int) =~= Seq::<char>::empty());
        }
        return Some((0, rest));
    }
    // The value now starts with a nonzero digit.
    proof {
        assert(d.skip(z as int)[0] == d[z as int]);
        assert(d[z as int] != '0');
        lemma_digits_val_lower(d.skip(z as int));
    }
    if k - z > 10 {
        proof {
            lemma_pow10_mono(10, (k - z - 1) as nat);
        }
        return None;
    }
    let mut acc: u64 = 0;
    let mut i: usize = z;
    while i < k
        invariant
            0 <= z <= i <= k,
            k <= n,
            n == t@.len(),
            k - z <= 10,
            d == t@.take(k as int),
            all_digits(d),
            acc as nat == digits_val(d.subrange(z as int, i as int)),
            (acc as nat) < pow10((i - z) as nat),
        decreases k - i,
    {
        let c = t.get_char(i);
        proof {
            assert(d[i as int] == t@[i as int]);
            assert(is_digit_char(c));
            lemma_digits_val_upper(d.subrange(z as int, i + 1));
            assert(d.subrange(z as int, i + 1).drop_last() =~= d.subrange(z as int, i as int));
            assert(d.subrange(z as int, i + 1).last() == d[i as int]);
            lemma_pow10_mono((i + 1 - z) as nat, 10);
            lemma_pow10_concrete();
        }
        acc = acc * 10 + digit_value(c);
        i = i + 1;
    }
    proof {
        assert(d.subrange(z as int, k as int) =~= d.skip(z as int));
    }
    if acc > 0xFFFF_FFFF {
        None
    } else {
        Some((acc, rest))
    }
}

/// An unsigned number within the 32-bit range.
fn parse_u32_tok<'a>(t: &'a str) -> (r: Option<(u32, &'a str)>)
    ensures
        match r {
            Some(p) => sp_parse_u32(t@) == Some((p.0, p.1@)),
            None => sp_parse_u32(t@) is None,
        },
{
    match parse_digits(t) {
        Some((v, rest)) => Some((v as u32, rest)),
        None => None,
    }
}

/// A signed number within the 32-bit range.
fn parse_i32_tok<'a>(t: &'a str) -> (r: Option<(i32, &'a str)>)
    ensures
        match r {
            Some(p) => sp_parse_i32(t@) == Some((p.0, p.1@)),
            None => sp_parse_i32(t@) is None,
        },
{
    let n = t.unicode_len();
    if n > 0 && t.get_char(0) == '-' {
        let tail = t.substring_char(1, n);
        proof {
            assert(tail@ =~= t@.drop_first());
        }
        match parse_digits(tail) {
            None => None,
            Some((v, rest)) => {
                if v <= 2147483648 {
                    let neg: i32 = (-(v as i64)) as i32;
                    Some((neg, rest))
                } else {
                    None
                }
            },
        }
    } else {
        match parse_digits(t) {
            None => None,
            Some((v, rest)) => {
                if v <= 2147483647 {
                    Some((v as i32, rest))
                } else {
                    None
                }
            },
        }
    }
}

/// A bracketed array of string literals.
fn parse_string_arr<'a>(t: &'a str) -> (r: Option<(Vec<String>, &'a str)>)
    ensures
        match r {
            Some(p) => sp_parse_string_array(t@) == Some((p.0.deep_view(), p.1@)),
            None => sp_parse_string_array(t@) is None,
        },
{
    let n = t.unicode_len();
    if n == 0 || t.get_char(0) != '[' {
        return None;
    }
    let u = t.substring_char(1, n);
    proof {
        assert(u@ =~= t@.drop_first());
    }
    let un = u.unicode_len();
    if un > 0 && u.get_char(0) == ']' {
        let rest = u.substring_char(1, un);
        let empty_vec: Vec<String> = Vec::new();
        proof {
            assert(rest@ =~= u@.drop_first());
            assert(empty_vec.deep_view() =~= Seq::<Seq<char>>::empty());
        }
        return Some((empty_vec, rest));
    }
    parse_arr_elems(u)
}

/// One or more comma-separated string literals, up to and past the
/// closing bracket.
fn parse_arr_elems<'a>(t: &'a str) -> (r: Option<(Vec<String>, &'a str)>)
    ensures
        match r {
            Some(p) => sp_parse_arr_elems(t@) == Some((p.0.deep_view(), p.1@)),
            None => sp_parse_arr_elems(t@) is None,
        },
    decreases t@.len(),
{
    match parse_json_string(t) {
        None => None,
        Some((s, rest)) => {
            proof {
                lemma_sp_parse_string_shrinks(t@);
            }
            let rn = rest.unicode_len();
            if rn > 0 && rest.get_char(0) == ',' {
                let after = rest.substring_char(1, rn);
                proof {
                    assert(after@ =~= rest@.drop_first());
                }
                match parse_arr_elems(after) {
                    None => None,
                    Some((mut elems, rest2)) => {
                        let ghost tail_views: Seq<Seq<char>> = elems.deep_view();
                        elems.insert(0, s);
                        proof {
                            assert forall|j: int|
                                0 <= j < elems.deep_view().len() implies #[trigger] elems.deep_view()[j]
                                == (seq![s@] + tail_views)[j] by {
                                assert(elems.deep_view()[j] == elems@[j].deep_view());
                            }
                            assert(elems.deep_view() =~= seq![s@] + tail_views);
                        }
                        Some((elems, rest2))
                    },
                }
            } else if rn > 0 && rest.get_char(0) == ']' {
                let mut elems: Vec<String> = Vec::new();
                elems.push(s);
                let rest2 = rest.substring_char(1, rn);
                proof {
                    assert(rest2@ =~= rest@.drop_first());
                    assert(elems.deep_view() =~= seq![s@]);
                }
                Some((elems, rest2))
            } else {
                None
            }
        },
    }
}

/// A user object.
fn parse_user<'a>(t: &'a str) -> (r: Option<(UserDto, &'a str)>)
    ensures
        match r {
            Some(p) => sp_parse_user(t@) == Some((p.0@, p.1@)),
            None => sp_parse_user(t@) is None,
        },
{
    let t1 = match expect_tok(t, "{\"id\":") {
        None => {
            return None;
        },
        Some(x) => x,
    };
    let (id, t2) = match parse_u32_tok(t1) {
        None => {
            return None;
        },
        Some(x) => x,
    };
    let t3 = match expect_tok(t2, ",\"name\":") {
        None => {
            return None;
        },
        Some(x) => x,
    };
    let (name, t4) = match parse_json_string(t3) {
        None => {
            return None;
        },
        Some(x) => x,
    };
    let t5 = match expect_tok(t4, ",\"email\":") {
        None => {
            return None;
        },
        Some(x) => x,
    };
    let (email, t6) = match parse_json_string(t5) {
        None => {
            return None;
        },
        Some(x) => x,
    };
    let t7 = match expect_tok(t6, "}") {
        None => {
            return None;
        },
        Some(x) => x,
    };
    Some((UserDto { id, name, email }, t7))
}

/// A recipe object.
fn parse_recipe<'a>(t: &'a str) -> (r: Option<(RecipeDto, &'a str)>)
    ensures
        match r {
            Some(p) => sp_parse_recipe(t@) == Some((p.0@, p.1@)),
            None => sp_parse_recipe(t@) is None,
        },
{
    let t1 = match expect_tok(t, "{\"id\":") {
        None => {
            return None;
        },
        Some(x) => x,
    };
    let (id, t2) = match parse_i32_tok(t1) {
        None => {
            return None;
        },
        Some(x) => x,
    };
    let t3 = match expect_tok(t2, ",\"title\":") {
        None => {
            return None;
        },
        Some(x) => x,
    };
    let (title, t4) = match parse_json_string(t3) {
        None => {
            return None;
        },
        Some(x) => x,
    };
    let t5 = match expect_tok(t4, ",\"ingredients\":") {
        None => {
            return None;
        },
        Some(x) => x,
    };
    let (ingredients, t6) = match parse_string_arr(t5) {
        None => {
            return None;
        },
        Some(x) => x,
    };
    let t7 = match expect_tok(t6, ",\"instructions\":") {
        None => {
            return None;
        },
        Some(x) => x,
    };
    let (instructions, t8) = match parse_json_string(t7) {
        None => {
            return None;
        },
        Some(x) => x,
    };
    let t9 = match expect_tok(t8, ",\"comments\":") {
        None => {
            return None;
        },
        Some(x) => x,
    };
    let (comments, t10) = match parse_string_arr(t9) {
        None => {
            return None;
        },
        Some(x) => x,
    };
    let t11 = match expect_tok(t10, ",\"created_by\":") {
        None => {
            return None;
        },
        Some(x) => x,
    };
    let (created_by, t12) = match parse_user(t11) {
        None => {
            return None;
        },
        Some(x) => x,
    };
    let t13 = match expect_tok(t12, "}") {
        None => {
            return None;
        },
        Some(x) => x,
    };
    Some((RecipeDto { id, title, ingredients, instructions, comments, created_by }, t13))
}

/// Decodes a text that is exactly one recipe object.
pub fn decode_recipe(t: &str) -> (r: Option<RecipeDto>)
    ensures
        match r {
            Some(dto) => sp_decode_recipe(t@) == Some(dto@),
            None => sp_decode_recipe(t@) is None,
        },
{
    match parse_recipe(t) {
        None => None,
        Some((dto, rest)) => {
            if rest.unicode_len() == 0 {
                Some(dto)
            } else {
                None
            }
        },
    }
}

// ---------------------------------------------------------------
// Round trip: decoding an encoded value gives the value back.
// ---------------------------------------------------------------

proof fn lemma_escape_body_roundtrip(s: Seq<char>, rest: Seq<char>)
    ensures
        sp_parse_string_body(sp_escape(s) + seq!['"'] + rest) == Some((s, rest)),
    decreases s.len(),
{
    let e = sp_escape(s) + seq!['"'] + rest;
    if s.len() == 0 {
        assert(sp_escape(s) =~= Seq::<char>::empty());
        assert(e[0] == '"');
        assert(e.drop_first() =~= rest);
    } else {
        let c = s[0];
        let tail = s.drop_first();
        lemma_escape_body_roundtrip(tail, rest);
        assert(sp_escape(s) == sp_escape_char(c) + sp_escape(tail));
        if c == '"' || c == '\\' || c == '\n' || c == '\r' || c == '\t' || c == '\u{0008}' || c
            == '\u{000C}' {
            assert(sp_escape_char(c).len() == 2);
            assert(e[0] == '\\');
            assert(e[1] == sp_escape_char(c)[1]);
            assert(e[1] != 'u');
            assert(sp_unescape_char(e[1]) == Some(c));
            assert(e.skip(2) =~= sp_escape(tail) + seq!['"'] + rest);
            assert(seq![c] + tail =~= s);
        } else if (c as u32) < 32 {
            let code = c as u32;
            vstd::utf8::char_u32_cast(c, code);
            let hi = hex_digit_char((code / 16) as nat);
            let lo = hex_digit_char((code % 16) as nat);
            assert(sp_escape_char(c) == seq!['\\', 'u', '0', '0', hi, lo]);
            assert(e[0] == '\\');
            assert(e[1] == 'u');
            assert(e[2] == '0');
            assert(e[3] == '0');
            assert(e[4] == hi);
            assert(e[5] == lo);
            assert(is_hex_digit_char(hi) && hex_val(hi) == code / 16);
            assert(is_hex_digit_char(lo) && hex_val(lo) == code % 16);
            assert(is_hex_digit_char('0') && hex_val('0') == 0);
            assert((hex_val(e[2]) * 4096 + hex_val(e[3]) * 256 + hex_val(e[4]) * 16 + hex_val(e[5]))
                as u32 == code);
            assert(((code as u32) as char) == c);
            assert(e.skip(6) =~= sp_escape(tail) + seq!['"'] + rest);
            assert(seq![c] + tail =~= s);
        } else {
            assert(sp_escape_char(c) =~= seq![c]);
            assert(e[0] == c);
            assert(e.drop_first() =~= sp_escape(tail) + seq!['"'] + rest);
            assert(seq![c] + tail =~= s);
        }
    }
}

proof fn lemma_string_roundtrip(s: Seq<char>, rest: Seq<char>)
    ensures
        sp_parse_string(sp_json_string(s) + rest) == Some((s, rest)),
{
    let e = sp_json_string(s) + rest;
    assert(e[0] == '"');
    assert(e.drop_first() =~= sp_escape(s) + seq!['"'] + rest);
    lemma_escape_body_roundtrip(s, rest);
}

proof fn lemma_expect_roundtrip(tok: Seq<char>, rest: Seq<char>)
    ensures
        sp_expect(tok + rest, tok) == Some(rest),
{
    assert((tok + rest).take(tok.len() as int) =~= tok);
    assert((tok + rest).skip(tok.len() as int) =~= rest);
}

proof fn lemma_digit_run_concat(d: Seq<char>, rest: Seq<char>)
    requires
        all_digits(d),
        rest.len() == 0 || !is_digit_char(rest[0]),
    ensures
        sp_digit_run(d + rest) == d.len(),
    decreases d.len(),
{
    if d.len() == 0 {
        assert(d + rest =~= rest);
    } else {
        assert((d + rest)[0] == d[0]);
        assert((d + rest).drop_first() =~= d.drop_first() + rest);
        lemma_digit_run_concat(d.drop_first(), rest);
    }
}

proof fn lemma_parse_u32_roundtrip(n: u32, rest: Seq<char>)
    requires
        rest.len() == 0 || !is_digit_char(rest[0]),
    ensures
        sp_parse_u32(dec_digits(n as nat) + rest) == Some((n, rest)),
{
    let d = dec_digits(n as nat);
    let e = d + rest;
    lemma_dec_digits_wf(n as nat);
    lemma_dec_digits_val(n as nat);
    lemma_digit_run_concat(d, rest);
    assert(e.take(d.len() as int) =~= d);
    assert(e.skip(d.len() as int) =~= rest);
}

proof fn lemma_parse_i32_roundtrip(n: i32, rest: Seq<char>)
    requires
        rest.len() == 0 || !is_digit_char(rest[0]),
    ensures
        sp_parse_i32(sp_json_i32(n) + rest) == Some((n, rest)),
{
    if n >= 0 {
        let d = dec_digits(n as nat);
        let e = d + rest;
        lemma_dec_digits_wf(n as nat);
        lemma_dec_digits_val(n as nat);
        lemma_digit_run_concat(d, rest);
        assert(e[0] == d[0]);
        assert(e[0] != '-');
        assert(e.take(d.len() as int) =~= d);
        assert(e.skip(d.len() as int) =~= rest);
    } else {
        let m = (-(n as int)) as nat;
        let d = dec_digits(m);
        let e = sp_json_i32(n) + rest;
        lemma_dec_digits_wf(m);
        lemma_dec_digits_val(m);
        assert(e[0] == '-');
        let u = e.drop_first();
        assert(u =~= d + rest);
        lemma_digit_run_concat(d, rest);
        assert(u.take(d.len() as int) =~= d);
        assert(u.skip(d.len() as int) =~= rest);
        assert(digits_val(d) <= 2147483648);
        assert((-(digits_val(d) as int)) as i32 == n);
    }
}

proof fn lemma_arr_elems_roundtrip(es: Seq<Seq<char>>, rest: Seq<char>)
    requires
        es.len() >= 1,
    ensures
        sp_parse_arr_elems(sp_arr_items(es) + seq![']'] + rest) == Some((es, rest)),
    decreases es.len(),
{
    let e = sp_arr_items(es) + seq![']'] + rest;
    if es.len() == 1 {
        let r1 = seq![']'] + rest;
        assert(e =~= sp_json_string(es[0]) + r1);
        lemma_string_roundtrip(es[0], r1);
        assert(r1[0] == ']');
        assert(r1.drop_first() =~= rest);
        assert(seq![es[0]] =~= es);
    } else {
        let tail = es.drop_first();
        let r1 = seq![','] + sp_arr_items(tail) + seq![']'] + rest;
        assert(e =~= sp_json_string(es[0]) + r1);
        lemma_string_roundtrip(es[0], r1);
        assert(r1[0] == ',');
        assert(r1.drop_first() =~= sp_arr_items(tail) + seq![']'] + rest);
        lemma_arr_elems_roundtrip(tail, rest);
        assert(seq![es[0]] + tail =~= es);
    }
}

proof fn lemma_string_array_roundtrip(es: Seq<Seq<char>>, rest: Seq<char>)
    ensures
        sp_parse_string_array(sp_json_string_array(es) + rest) == Some((es, rest)),
{
    let e = sp_json_string_array(es) + rest;
    assert(e[0] == '[');
    let u = e.drop_first();
    assert(u =~= sp_arr_items(es) + seq![']'] + rest);
    if es.len() == 0 {
        assert(sp_arr_items(es) =~= Seq::<char>::empty());
        assert(u =~= seq![']'] + rest);
        assert(u[0] == ']');
        assert(u.drop_first() =~= rest);
        assert(Seq::<Seq<char>>::empty() =~= es);
    } else {
        assert(sp_arr_items(es)[0] == sp_json_string(es[0])[0]);
        assert(u[0] == '"');
        lemma_arr_elems_roundtrip(es, rest);
    }
}

proof fn lemma_user_roundtrip(u: UserView, rest: Seq<char>)
    ensures
        sp_parse_user(sp_json_user(u) + rest) == Some((u, rest)),
{
    reveal_strlit("{\"id\":");
    reveal_strlit(",\"name\":");
    reveal_strlit(",\"email\":");
    reveal_strlit("}");
    let e = sp_json_user(u) + rest;
    let r1 = dec_digits(u.id as nat) + ",\"name\":"@ + sp_json_string(u.name) + ",\"email\":"@
        + sp_json_string(u.email) + "}"@ + rest;
    assert(e =~= "{\"id\":"@ + r1);
    lemma_expect_roundtrip("{\"id\":"@, r1);
    let r2 = ",\"name\":"@ + sp_json_string(u.name) + ",\"email\":"@ + sp_json_string(u.email)
        + "}"@ + rest;
    assert(r1 =~= dec_digits(u.id as nat) + r2);
    assert(r2[0] == ',');
    assert(!is_digit_char(','));
    lemma_parse_u32_roundtrip(u.id, r2);
    let r3 = sp_json_string(u.name) + (",\"email\":"@ + sp_json_string(u.email) + "}"@ + rest);
    assert(r2 =~= ",\"name\":"@ + r3);
    lemma_expect_roundtrip(",\"name\":"@, r3);
    let r4 = ",\"email\":"@ + sp_json_string(u.email) + "}"@ + rest;
    assert(r3 =~= sp_json_string(u.name) + r4);
    lemma_string_roundtrip(u.name, r4);
    let r5 = sp_json_string(u.email) + ("}"@ + rest);
    assert(r4 =~= ",\"email\":"@ + r5);
    lemma_expect_roundtrip(",\"email\":"@, r5);
    let r6 = "}"@ + rest;
    assert(r5 =~= sp_json_string(u.email) + r6);
    lemma_string_roundtrip(u.email, r6);
    lemma_expect_roundtrip("}"@, rest);
    assert((UserView { id: u.id, name: u.name, email: u.email }) == u);
}

#[verifier::rlimit(100)]
#[verifier::spinoff_prover]
proof fn lemma_recipe_parse_roundtrip(v: RecipeView, rest: Seq<char>)
    ensures
        sp_parse_recipe(sp_json_recipe(v) + rest) == Some((v, rest)),
{
    reveal_strlit("{\"id\":");
    reveal_strlit(",\"title\":");
    reveal_strlit(",\"ingredients\":");
    reveal_strlit(",\"instructions\":");
    reveal_strlit(",\"comments\":");
    reveal_strlit(",\"created_by\":");
    reveal_strlit("}");
    let r12 = "}"@ + rest;
    let r11 = sp_json_user(v.created_by) + r12;
    let r10 = ",\"created_by\":"@ + r11;
    let r9 = sp_json_string_array(v.comments) + r10;
    let r8 = ",\"comments\":"@ + r9;
    let r7 = sp_json_string(v.instructions) + r8;
    let r6 = ",\"instructions\":"@ + r7;
    let r5 = sp_json_string_array(v.ingredients) + r6;
    let r4 = ",\"ingredients\":"@ + r5;
    let r3 = sp_json_string(v.title) + r4;
    let r2 = ",\"title\":"@ + r3;
    let r1 = sp_json_i32(v.id) + r2;
    assert(sp_json_recipe(v) + rest =~= "{\"id\":"@ + r1);
    lemma_expect_roundtrip("{\"id\":"@, r1);
    assert(r2[0] == ',');
    assert(!is_digit_char(','));
    lemma_parse_i32_roundtrip(v.id, r2);
    lemma_expect_roundtrip(",\"title\":"@, r3);
    lemma_string_roundtrip(v.title, r4);
    lemma_expect_roundtrip(",\"ingredients\":"@, r5);
    lemma_string_array_roundtrip(v.ingredients, r6);
    lemma_expect_roundtrip(",\"instructions\":"@, r7);
    lemma_string_roundtrip(v.instructions, r8);
    lemma_expect_roundtrip(",\"comments\":"@, r9);
    lemma_string_array_roundtrip(v.comments, r10);
    lemma_expect_roundtrip(",\"created_by\":"@, r11);
    lemma_user_roundtrip(v.created_by, r12);
    lemma_expect_roundtrip("}"@, rest);
    assert((RecipeView {
        id: v.id,
        title: v.title,
        ingredients: v.ingredients,
        instructions: v.instructions,
        comments: v.comments,
        created_by: v.created_by,
    }) == v);
}

/// Round trip of the recipe shape: decoding the encoded form of any
/// recipe gives exactly that recipe back.
pub proof fn lemma_recipe_roundtrip(v: RecipeView)
    ensures
        sp_decode_recipe(sp_json_recipe(v)) == Some(v),
{
    lemma_recipe_parse_roundtrip(v, Seq::empty());
    assert(sp_json_recipe(v) + Seq::<char>::empty() =~= sp_json_recipe(v));
}

} // verus!

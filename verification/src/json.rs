//! The payload text of a token: a claim set as a flat JSON object with the
//! ten fields named exactly `iss, sub, aud, nbf, exp, iat, name,
//! display_name, picture, scope`, in that order. This module gives the
//! canonical text of a claim set, what the reader accepts, and the proof
//! that reading a canonical text yields exactly the claims it encodes.

use vstd::prelude::*;
use crate::claims::ClaimsView;

verus! {

pub open spec fn is_dec_digit(c: char) -> bool {
    48 <= (c as u32) <= 57
}

/// Digit characters for values 0..16: decimal digits then lower-case hex.
pub open spec fn hex_digit(v: int) -> char {
    if v < 10 {
        ((48 + v) as u8) as char
    } else {
        ((87 + v) as u8) as char
    }
}

/// The value of a hexadecimal digit character, or -1.
pub open spec fn spec_hex_val(c: char) -> int {
    let u = (c as u32) as int;
    if 48 <= u <= 57 {
        u - 48
    } else if 97 <= u <= 102 {
        u - 97 + 10
    } else if 65 <= u <= 70 {
        u - 65 + 10
    } else {
        -1
    }
}

/// How one character appears inside a JSON string: quote and backslash get
/// a two-character escape, control characters a `\u00XX` escape, everything
/// else stands as itself.
pub open spec fn spec_escape_char(c: char) -> Seq<char> {
    if c == '"' {
        seq!['\\', '"']
    } else if c == '\\' {
        seq!['\\', '\\']
    } else if (c as u32) < 32 {
        seq!['\\', 'u', '0', '0', hex_digit((c as u32) as int / 16), hex_digit((c as u32) as int % 16)]
    } else {
        seq![c]
    }
}

pub open spec fn spec_escape(s: Seq<char>) -> Seq<char>
    decreases s.len(),
{
    if s.len() == 0 {
        Seq::empty()
    } else {
        spec_escape_char(s[0]) + spec_escape(s.skip(1))
    }
}

/// A JSON string literal: the escaped content between quotes.
pub open spec fn spec_json_str(s: Seq<char>) -> Seq<char> {
    seq!['"'] + spec_escape(s) + seq!['"']
}

/// The decimal digits of a non-negative number, most significant first.
pub open spec fn spec_digits(n: int) -> Seq<char>
    decreases n,
{
    if n < 0 {
        Seq::empty()
    } else if n < 10 {
        seq![hex_digit(n)]
    } else {
        spec_digits(n / 10) + seq![hex_digit(n % 10)]
    }
}

pub open spec fn spec_json_str_items(items: Seq<Seq<char>>) -> Seq<char>
    decreases items.len(),
{
    if items.len() == 0 {
        Seq::empty()
    } else if items.len() == 1 {
        spec_json_str(items[0])
    } else {
        spec_json_str(items[0]) + seq![','] + spec_json_str_items(items.skip(1))
    }
}

/// A JSON array of string literals.
pub open spec fn spec_json_str_array(items: Seq<Seq<char>>) -> Seq<char> {
    seq!['['] + spec_json_str_items(items) + seq![']']
}

/// The canonical payload text of a claim set, grouped as each field's
/// label-and-value prefix followed by the text after it.
pub open spec fn spec_claims_json(c: ClaimsView) -> Seq<char> {
    "{\"iss\":"@ + (spec_json_str(c.iss) + (",\"sub\":"@ + (spec_json_str(c.sub) + (",\"aud\":"@
        + (spec_json_str_array(c.aud) + (",\"nbf\":"@ + (spec_digits(c.nbf as int) + (",\"exp\":"@
        + (spec_digits(c.exp as int) + (",\"iat\":"@ + (spec_digits(c.iat as int) + (",\"name\":"@
        + (spec_json_str(c.name) + (",\"display_name\":"@ + (spec_json_str(c.display_name)
        + (",\"picture\":"@ + (spec_json_str(c.picture) + (",\"scope\":"@
        + (spec_json_str_array(c.scope) + "}"@)))))))))))))))))))
}

// ---------------------------------------------------------------------------
// What the reader accepts. Each parsing function consumes a prefix of the
// text and yields the value it denotes together with the remaining text.
// ---------------------------------------------------------------------------

/// Consumes an expected literal prefix.
pub open spec fn spec_parse_lit(s: Seq<char>, lit: Seq<char>) -> Option<Seq<char>> {
    if lit.len() <= s.len() && s.take(lit.len() as int) == lit {
        Some(s.skip(lit.len() as int))
    } else {
        None
    }
}

pub open spec fn spec_cons_char(
    c: char,
    rest: Option<(Seq<char>, Seq<char>)>,
) -> Option<(Seq<char>, Seq<char>)> {
    match rest {
        Some((t, r)) => Some((seq![c] + t, r)),
        None => None,
    }
}

/// The single character a two-character escape denotes, if the escape is
/// one of the simple ones.
pub open spec fn spec_unescape_simple(e: char) -> Option<char> {
    if e == '"' {
        Some('"')
    } else if e == '\\' {
        Some('\\')
    } else if e == '/' {
        Some('/')
    } else if e == 'b' {
        Some('\u{8}')
    } else if e == 'f' {
        Some('\u{c}')
    } else if e == 'n' {
        Some('\n')
    } else if e == 'r' {
        Some('\r')
    } else if e == 't' {
        Some('\t')
    } else {
        None
    }
}

/// A string body up to and including its closing quote: raw characters,
/// simple escapes, and `\uXXXX` escapes outside the surrogate range; a bare
/// control character is refused.
pub open spec fn spec_parse_strbody(s: Seq<char>) -> Option<(Seq<char>, Seq<char>)>
    decreases s.len(),
{
    if s.len() == 0 {
        None
    } else if s[0] == '"' {
        Some((Seq::empty(), s.skip(1)))
    } else if s[0] == '\\' {
        if s.len() < 2 {
            None
        } else if s[1] == 'u' {
            if s.len() < 6 {
                None
            } else {
                let h0 = spec_hex_val(s[2]);
                let h1 = spec_hex_val(s[3]);
                let h2 = spec_hex_val(s[4]);
                let h3 = spec_hex_val(s[5]);
                if h0 >= 0 && h1 >= 0 && h2 >= 0 && h3 >= 0 {
                    let v = h0 * 4096 + h1 * 256 + h2 * 16 + h3;
                    if v < 0xD800 || v > 0xDFFF {
                        spec_cons_char(((v as u32) as char), spec_parse_strbody(s.skip(6)))
                    } else {
                        None
                    }
                } else {
                    None
                }
            }
        } else {
            match spec_unescape_simple(s[1]) {
                Some(c) => spec_cons_char(c, spec_parse_strbody(s.skip(2))),
                None => None,
            }
        }
    } else if (s[0] as u32) < 32 {
        None
    } else {
        spec_cons_char(s[0], spec_parse_strbody(s.skip(1)))
    }
}

/// A quoted JSON string: content and remaining text.
pub open spec fn spec_parse_string(s: Seq<char>) -> Option<(Seq<char>, Seq<char>)> {
    if s.len() > 0 && s[0] == '"' {
        spec_parse_strbody(s.skip(1))
    } else {
        None
    }
}

pub open spec fn spec_digit_prefix_len(s: Seq<char>) -> int
    decreases s.len(),
{
    if s.len() == 0 || !is_dec_digit(s[0]) {
        0
    } else {
        1 + spec_digit_prefix_len(s.skip(1))
    }
}

/// The number a digit sequence denotes.
pub open spec fn spec_digits_val(ds: Seq<char>) -> int
    decreases ds.len(),
{
    if ds.len() == 0 {
        0
    } else {
        spec_digits_val(ds.drop_last()) * 10 + ((ds.last() as u32) as int - 48)
    }
}

/// An unsigned decimal number: its maximal digit prefix, refused when empty,
/// non-canonical (a leading zero), or too large for 64 bits.
pub open spec fn spec_parse_u64(s: Seq<char>) -> Option<(u64, Seq<char>)> {
    let k = spec_digit_prefix_len(s);
    if k == 0 {
        None
    } else if s[0] == '0' && k > 1 {
        None
    } else {
        let v = spec_digits_val(s.take(k));
        if v <= u64::MAX {
            Some((v as u64, s.skip(k)))
        } else {
            None
        }
    }
}

pub open spec fn spec_cons_item(
    t: Seq<char>,
    rest: Option<(Seq<Seq<char>>, Seq<char>)>,
) -> Option<(Seq<Seq<char>>, Seq<char>)> {
    match rest {
        Some((items, r)) => Some((seq![t] + items, r)),
        None => None,
    }
}

/// One or more comma-separated string literals up to and including the
/// closing bracket.
pub open spec fn spec_parse_str_items(s: Seq<char>) -> Option<(Seq<Seq<char>>, Seq<char>)>
    decreases s.len(),
{
    match spec_parse_string(s) {
        Some((t, r)) => {
            if r.len() > 0 && r[0] == ']' {
                Some((seq![t], r.skip(1)))
            } else if r.len() > 0 && r[0] == ',' {
                if r.len() < s.len() {
                    spec_cons_item(t, spec_parse_str_items(r.skip(1)))
                } else {
                    None
                }
            } else {
                None
            }
        },
        None => None,
    }
}

/// A JSON array of string literals: content and remaining text.
pub open spec fn spec_parse_str_array(s: Seq<char>) -> Option<(Seq<Seq<char>>, Seq<char>)> {
    if s.len() >= 2 && s[0] == '[' && s[1] == ']' {
        Some((Seq::empty(), s.skip(2)))
    } else if s.len() >= 1 && s[0] == '[' {
        spec_parse_str_items(s.skip(1))
    } else {
        None
    }
}

/// The claims a complete payload text denotes: the ten fields in canonical
/// order with nothing left over. A text missing any of the ten required
/// claims denotes nothing.
pub open spec fn spec_parse_claims(s: Seq<char>) -> Option<ClaimsView> {
    match spec_parse_lit(s, "{\"iss\":"@) {
        None => None,
        Some(s1) => match spec_parse_string(s1) {
            None => None,
            Some((iss, s2)) => match spec_parse_lit(s2, ",\"sub\":"@) {
                None => None,
                Some(s3) => match spec_parse_string(s3) {
                    None => None,
                    Some((sub, s4)) => match spec_parse_lit(s4, ",\"aud\":"@) {
                        None => None,
                        Some(s5) => match spec_parse_str_array(s5) {
                            None => None,
                            Some((aud, s6)) => match spec_parse_lit(s6, ",\"nbf\":"@) {
                                None => None,
                                Some(s7) => match spec_parse_u64(s7) {
                                    None => None,
                                    Some((nbf, s8)) => match spec_parse_lit(s8, ",\"exp\":"@) {
                                        None => None,
                                        Some(s9) => match spec_parse_u64(s9) {
                                            None => None,
                                            Some((exp, s10)) => spec_parse_claims_tail(
                                                iss, sub, aud, nbf, exp, s10,
                                            ),
                                        },
                                    },
                                },
                            },
                        },
                    },
                },
            },
        },
    }
}

/// The back half of the payload: `iat` and the four remaining identity
/// fields, then the closing brace and the end of the text.
pub open spec fn spec_parse_claims_tail(
    iss: Seq<char>,
    sub: Seq<char>,
    aud: Seq<Seq<char>>,
    nbf: u64,
    exp: u64,
    s: Seq<char>,
) -> Option<ClaimsView> {
    match spec_parse_lit(s, ",\"iat\":"@) {
        None => None,
        Some(s1) => match spec_parse_u64(s1) {
            None => None,
            Some((iat, s2)) => match spec_parse_lit(s2, ",\"name\":"@) {
                None => None,
                Some(s3) => match spec_parse_string(s3) {
                    None => None,
                    Some((name, s4)) => match spec_parse_lit(s4, ",\"display_name\":"@) {
                        None => None,
                        Some(s5) => match spec_parse_string(s5) {
                            None => None,
                            Some((display_name, s6)) => match spec_parse_lit(s6, ",\"picture\":"@) {
                                None => None,
                                Some(s7) => match spec_parse_string(s7) {
                                    None => None,
                                    Some((picture, s8)) => match spec_parse_lit(
                                        s8,
                                        ",\"scope\":"@,
                                    ) {
                                        None => None,
                                        Some(s9) => match spec_parse_str_array(s9) {
                                            None => None,
                                            Some((scope, s10)) => match spec_parse_lit(s10, "}"@) {
                                                None => None,
                                                Some(rest) => if rest.len() == 0 {
                                                    Some(
                                                        ClaimsView {
                                                            iss,
                                                            sub,
                                                            aud,
                                                            nbf,
                                                            exp,
                                                            iat,
                                                            name,
                                                            display_name,
                                                            picture,
                                                            scope,
                                                        },
                                                    )
                                                } else {
                                                    None
                                                },
                                            },
                                        },
                                    },
                                },
                            },
                        },
                    },
                },
            },
        },
    }
}

/// The serialized items after the first: a comma before each.
pub open spec fn spec_items_tail(items: Seq<Seq<char>>) -> Seq<char>
    decreases items.len(),
{
    if items.len() == 0 {
        Seq::empty()
    } else {
        seq![','] + spec_json_str(items[0]) + spec_items_tail(items.skip(1))
    }
}

/// A non-empty item list serializes as its first item followed by the
/// comma-prefixed rest.
pub proof fn lemma_items_split(items: Seq<Seq<char>>)
    requires
        items.len() >= 1,
    ensures
        spec_json_str_items(items) == spec_json_str(items[0]) + spec_items_tail(items.skip(1)),
    decreases items.len(),
{
    if items.len() == 1 {
        assert(items.skip(1).len() == 0);
        assert(spec_json_str(items[0]) + Seq::<char>::empty() =~= spec_json_str(items[0]));
    } else {
        lemma_items_split(items.skip(1));
        assert(items.skip(1)[0] == items[1]);
        assert(items.skip(1).skip(1) =~= items.skip(2));
        assert(spec_json_str(items[0]) + seq![','] + spec_json_str_items(items.skip(1))
            =~= spec_json_str(items[0]) + (seq![','] + (spec_json_str(items[1])
                + spec_items_tail(items.skip(2)))));
        assert(spec_json_str(items[0]) + spec_items_tail(items.skip(1))
            =~= spec_json_str(items[0]) + (seq![','] + (spec_json_str(items[1])
                + spec_items_tail(items.skip(2)))));
    }
}

/// How parsed string content composes with the parse of the remaining body.
pub open spec fn spec_strbody_compose(
    pre: Seq<char>,
    rest: Option<(Seq<char>, Seq<char>)>,
) -> Option<(Seq<char>, Seq<char>)> {
    match rest {
        Some((t, r)) => Some((pre + t, r)),
        None => None,
    }
}

/// How parsed array items compose with the parse of the remaining items.
pub open spec fn spec_items_compose(
    pre: Seq<Seq<char>>,
    rest: Option<(Seq<Seq<char>>, Seq<char>)>,
) -> Option<(Seq<Seq<char>>, Seq<char>)> {
    match rest {
        Some((items, r)) => Some((pre + items, r)),
        None => None,
    }
}

/// Prefixed content folds one parsed character into itself.
pub proof fn lemma_compose_cons(pre: Seq<char>, c: char, rest: Option<(Seq<char>, Seq<char>)>)
    ensures
        spec_strbody_compose(pre, spec_cons_char(c, rest)) == spec_strbody_compose(
            pre + seq![c],
            rest,
        ),
{
    match rest {
        Some((t, r)) => {
            assert(pre + (seq![c] + t) =~= (pre + seq![c]) + t);
        },
        None => {},
    }
}

/// Prefixed items fold one parsed item into themselves.
pub proof fn lemma_compose_cons_item(
    pre: Seq<Seq<char>>,
    t: Seq<char>,
    rest: Option<(Seq<Seq<char>>, Seq<char>)>,
)
    ensures
        spec_items_compose(pre, spec_cons_item(t, rest)) == spec_items_compose(
            pre + seq![t],
            rest,
        ),
{
    match rest {
        Some((items, r)) => {
            assert(pre + (seq![t] + items) =~= (pre + seq![t]) + items);
        },
        None => {},
    }
}

/// An empty prefix composes to the parse itself.
pub proof fn lemma_compose_empty(rest: Option<(Seq<char>, Seq<char>)>)
    ensures
        spec_strbody_compose(Seq::empty(), rest) == rest,
{
    match rest {
        Some((t, r)) => {
            assert(Seq::empty() + t =~= t);
        },
        None => {},
    }
}

/// An empty item prefix composes to the parse itself.
pub proof fn lemma_compose_empty_items(rest: Option<(Seq<Seq<char>>, Seq<char>)>)
    ensures
        spec_items_compose(Seq::empty(), rest) == rest,
{
    match rest {
        Some((items, r)) => {
            assert(Seq::<Seq<char>>::empty() + items =~= items);
        },
        None => {},
    }
}

/// The value of a digit sequence is never negative.
pub proof fn lemma_val_nonneg(ds: Seq<char>)
    requires
        forall|q: int| 0 <= q < ds.len() ==> is_dec_digit(#[trigger] ds[q]),
    ensures
        spec_digits_val(ds) >= 0,
    decreases ds.len(),
{
    if ds.len() > 0 {
        assert(forall|q: int|
            0 <= q < ds.drop_last().len() ==> is_dec_digit(#[trigger] ds.drop_last()[q]));
        lemma_val_nonneg(ds.drop_last());
        assert(spec_digits_val(ds.drop_last()) * 10 >= 0) by (nonlinear_arith)
            requires
                spec_digits_val(ds.drop_last()) >= 0,
        ;
    }
}

/// The value of a digit prefix never shrinks as the prefix grows.
pub proof fn lemma_val_grows(s: Seq<char>, a: int, b: int)
    requires
        0 <= a <= b <= s.len(),
        forall|q: int| 0 <= q < b ==> is_dec_digit(#[trigger] s[q]),
    ensures
        spec_digits_val(s.take(a)) <= spec_digits_val(s.take(b)),
    decreases b - a,
{
    if a < b {
        lemma_val_grows(s, a, b - 1);
        assert(s.take(b).drop_last() =~= s.take(b - 1));
        assert(s.take(b).last() == s[b - 1]);
        assert(forall|q: int|
            0 <= q < s.take(b - 1).len() ==> is_dec_digit(#[trigger] s.take(b - 1)[q]));
        lemma_val_nonneg(s.take(b - 1));
        let v = spec_digits_val(s.take(b - 1));
        assert(v * 10 >= v) by (nonlinear_arith)
            requires
                v >= 0,
        ;
        assert(spec_digits_val(s.take(b)) >= v);
    }
}

/// A successfully read string body leaves strictly less text over.
pub proof fn lemma_strbody_shrinks(s: Seq<char>)
    ensures
        spec_parse_strbody(s) matches Some((t, r)) ==> r.len() < s.len(),
    decreases s.len(),
{
    if s.len() == 0 {
    } else if s[0] == '"' {
    } else if s[0] == '\\' {
        if s.len() >= 2 && s[1] == 'u' && s.len() >= 6 {
            lemma_strbody_shrinks(s.skip(6));
        } else if s.len() >= 2 {
            lemma_strbody_shrinks(s.skip(2));
        }
    } else {
        lemma_strbody_shrinks(s.skip(1));
    }
}

/// A successfully read string leaves at least two characters behind.
pub proof fn lemma_string_shrinks(s: Seq<char>)
    ensures
        spec_parse_string(s) matches Some((t, r)) ==> r.len() + 2 <= s.len(),
{
    if s.len() > 0 && s[0] == '"' {
        lemma_strbody_shrinks(s.skip(1));
    }
}

// ---------------------------------------------------------------------------
// Reading a canonical text yields exactly the value it encodes.
// ---------------------------------------------------------------------------

pub proof fn lemma_hex_digit_val(v: int)
    requires
        0 <= v < 16,
    ensures
        spec_hex_val(hex_digit(v)) == v,
        is_dec_digit(hex_digit(v)) <==> v < 10,
{
}

/// Consuming an expected literal off the front of a text that starts with
/// it leaves exactly the rest.
pub proof fn lemma_lit_round_trip(lit: Seq<char>, tail: Seq<char>)
    ensures
        spec_parse_lit(lit + tail, lit) == Some(tail),
{
    assert((lit + tail).take(lit.len() as int) =~= lit);
    assert((lit + tail).skip(lit.len() as int) =~= tail);
}

/// Reading a string body off an escaped content followed by the closing
/// quote yields exactly that content.
pub proof fn lemma_escape_round_trip(t: Seq<char>, tail: Seq<char>)
    ensures
        spec_parse_strbody(spec_escape(t) + seq!['"'] + tail) == Some((t, tail)),
    decreases t.len(),
{
    let s = spec_escape(t) + seq!['"'] + tail;
    if t.len() == 0 {
        assert(s =~= seq!['"'] + tail);
        assert(s[0] == '"');
        assert(s.skip(1) =~= tail);
        assert(t =~= Seq::<char>::empty());
    } else {
        let c = t[0];
        let t1 = t.skip(1);
        let e = spec_escape_char(c);
        let s1 = spec_escape(t1) + seq!['"'] + tail;
        assert(s =~= e + s1);
        lemma_escape_round_trip(t1, tail);
        if c == '"' {
            assert(s[0] == '\\' && s[1] == '"');
            assert(s.skip(2) =~= s1);
            assert(spec_parse_strbody(s) == spec_cons_char('"', spec_parse_strbody(s1)));
        } else if c == '\\' {
            assert(s[0] == '\\' && s[1] == '\\');
            assert(s.skip(2) =~= s1);
            assert(spec_parse_strbody(s) == spec_cons_char('\\', spec_parse_strbody(s1)));
        } else if (c as u32) < 32 {
            let cu = (c as u32) as int;
            assert(s[0] == '\\' && s[1] == 'u' && s[2] == '0' && s[3] == '0');
            assert(s[4] == hex_digit(cu / 16));
            assert(s[5] == hex_digit(cu % 16));
            lemma_hex_digit_val(cu / 16);
            lemma_hex_digit_val(cu % 16);
            assert(spec_hex_val('0') == 0);
            let v = spec_hex_val(s[2]) * 4096 + spec_hex_val(s[3]) * 256 + spec_hex_val(s[4])
                * 16 + spec_hex_val(s[5]);
            assert(v == (cu / 16) * 16 + (cu % 16));
            assert(v == cu);
            assert(v < 0xD800);
            vstd::utf8::char_u32_cast(c, c as u32);
            assert(((v as u32) as char) == c);
            assert(s.skip(6) =~= s1);
            assert(spec_parse_strbody(s) == spec_cons_char(c, spec_parse_strbody(s1)));
        } else {
            assert(s[0] == c);
            assert(s.skip(1) =~= s1);
            assert(spec_parse_strbody(s) == spec_cons_char(c, spec_parse_strbody(s1)));
        }
        assert(seq![c] + t1 =~= t);
    }
}

/// Reading a string literal off a quoted canonical text yields exactly its
/// content.
pub proof fn lemma_str_round_trip(t: Seq<char>, tail: Seq<char>)
    ensures
        spec_parse_string(spec_json_str(t) + tail) == Some((t, tail)),
{
    let s = spec_json_str(t) + tail;
    assert(s[0] == '"');
    assert(s.skip(1) =~= spec_escape(t) + seq!['"'] + tail);
    lemma_escape_round_trip(t, tail);
}

/// The decimal text of a number is non-empty, all digits, has no leading
/// zero, and denotes the number.
pub proof fn lemma_digits_shape(n: int)
    requires
        n >= 0,
    ensures
        spec_digits(n).len() >= 1,
        forall|k: int|
            0 <= k < spec_digits(n).len() ==> is_dec_digit(#[trigger] spec_digits(n)[k]),
        n >= 1 ==> spec_digits(n)[0] != '0',
        n == 0 ==> spec_digits(n) == seq!['0'],
        spec_digits_val(spec_digits(n)) == n,
    decreases n,
{
    if n < 10 {
        lemma_hex_digit_val(n);
        assert(spec_digits(n) == seq![hex_digit(n)]);
        assert(spec_digits(n).drop_last() =~= Seq::<char>::empty());
        assert(spec_digits_val(Seq::<char>::empty()) == 0);
        assert(hex_digit(n) as u32 == 48 + n);
        assert(spec_digits(n).last() == hex_digit(n));
        assert(spec_digits_val(spec_digits(n)) == spec_digits_val(
            spec_digits(n).drop_last(),
        ) * 10 + ((spec_digits(n).last() as u32) as int - 48));
        if n == 0 {
            assert(spec_digits(n) =~= seq!['0']);
        }
    } else {
        lemma_digits_shape(n / 10);
        let ds = spec_digits(n);
        let hd = spec_digits(n / 10);
        assert(ds == hd + seq![hex_digit(n % 10)]);
        assert(ds.drop_last() =~= hd);
        assert(ds.last() == hex_digit(n % 10));
        lemma_hex_digit_val(n % 10);
        assert(hex_digit(n % 10) as u32 == 48 + n % 10);
        assert(spec_digits_val(ds) == n / 10 * 10 + n % 10);
        assert(n / 10 * 10 + n % 10 == n);
        assert(ds[0] == hd[0]);
        assert(forall|k: int| 0 <= k < ds.len() ==> is_dec_digit(#[trigger] ds[k])) by {
            assert(forall|k: int| 0 <= k < hd.len() ==> is_dec_digit(#[trigger] hd[k]));
            assert(ds[ds.len() - 1] == hex_digit(n % 10));
            assert(forall|k: int| 0 <= k < hd.len() ==> ds[k] == hd[k]);
        }
    }
}

/// The maximal digit prefix of all-digit text followed by non-digit text is
/// exactly the digit part.
pub proof fn lemma_digit_prefix_of(ds: Seq<char>, tail: Seq<char>)
    requires
        forall|k: int| 0 <= k < ds.len() ==> is_dec_digit(#[trigger] ds[k]),
        tail.len() == 0 || !is_dec_digit(tail[0]),
    ensures
        spec_digit_prefix_len(ds + tail) == ds.len(),
    decreases ds.len(),
{
    if ds.len() == 0 {
        assert(ds + tail =~= tail);
    } else {
        assert((ds + tail)[0] == ds[0]);
        assert((ds + tail).skip(1) =~= ds.skip(1) + tail);
        lemma_digit_prefix_of(ds.skip(1), tail);
    }
}

/// Reading a number off its decimal text followed by anything that is not a
/// digit yields exactly the number.
pub proof fn lemma_digits_round_trip(n: u64, tail: Seq<char>)
    requires
        tail.len() == 0 || !is_dec_digit(tail[0]),
    ensures
        spec_parse_u64(spec_digits(n as int) + tail) == Some((n, tail)),
{
    let ds = spec_digits(n as int);
    lemma_digits_shape(n as int);
    lemma_digit_prefix_of(ds, tail);
    let s = ds + tail;
    let k = spec_digit_prefix_len(s);
    assert(k == ds.len());
    assert(s.take(k) =~= ds);
    assert(s.skip(k) =~= tail);
    assert(s[0] == ds[0]);
    if n == 0 {
        assert(k == 1);
    } else {
        assert(s[0] != '0');
    }
}

/// Reading array items off one or more serialized items followed by the
/// closing bracket yields exactly those items.
pub proof fn lemma_items_round_trip(items: Seq<Seq<char>>, tail: Seq<char>)
    requires
        items.len() >= 1,
    ensures
        spec_parse_str_items(spec_json_str_items(items) + seq![']'] + tail) == Some(
            (items, tail),
        ),
    decreases items.len(),
{
    let s = spec_json_str_items(items) + seq![']'] + tail;
    if items.len() == 1 {
        assert(s =~= spec_json_str(items[0]) + (seq![']'] + tail));
        lemma_str_round_trip(items[0], seq![']'] + tail);
        let r = seq![']'] + tail;
        assert(r[0] == ']');
        assert(r.skip(1) =~= tail);
        assert(seq![items[0]] =~= items);
    } else {
        let rest_ser = spec_json_str_items(items.skip(1)) + seq![']'] + tail;
        assert(s =~= spec_json_str(items[0]) + (seq![','] + rest_ser));
        lemma_str_round_trip(items[0], seq![','] + rest_ser);
        let r = seq![','] + rest_ser;
        assert(r[0] == ',');
        assert(r.len() < s.len()) by {
            assert(s.len() == spec_json_str(items[0]).len() + r.len());
            assert(spec_json_str(items[0]).len() >= 2);
        }
        assert(r.skip(1) =~= rest_ser);
        lemma_items_round_trip(items.skip(1), tail);
        assert(seq![items[0]] + items.skip(1) =~= items);
    }
}

/// Reading a string array off its canonical text yields exactly its items.
pub proof fn lemma_array_round_trip(items: Seq<Seq<char>>, tail: Seq<char>)
    ensures
        spec_parse_str_array(spec_json_str_array(items) + tail) == Some((items, tail)),
{
    let s = spec_json_str_array(items) + tail;
    if items.len() == 0 {
        assert(s =~= seq!['[', ']'] + tail);
        assert(s[0] == '[' && s[1] == ']');
        assert(s.skip(2) =~= tail);
        assert(items =~= Seq::<Seq<char>>::empty());
    } else {
        assert(s[0] == '[');
        assert(spec_json_str_items(items)[0] == spec_json_str(items[0])[0]);
        assert(s[1] == '"');
        assert(s.skip(1) =~= spec_json_str_items(items) + seq![']'] + tail);
        lemma_items_round_trip(items, tail);
    }
}

/// Reading the canonical payload text of a claim set yields exactly that
/// claim set: the full canonical round trip.
pub proof fn lemma_claims_round_trip(c: ClaimsView)
    ensures
        spec_parse_claims(spec_claims_json(c)) == Some(c),
{
    reveal_strlit(",\"sub\":");
    reveal_strlit(",\"aud\":");
    reveal_strlit(",\"nbf\":");
    reveal_strlit(",\"exp\":");
    reveal_strlit(",\"iat\":");
    reveal_strlit(",\"name\":");
    reveal_strlit(",\"display_name\":");
    reveal_strlit(",\"picture\":");
    reveal_strlit(",\"scope\":");
    reveal_strlit("}");
    let t20 = "}"@;
    let t19 = spec_json_str_array(c.scope) + t20;
    let t18 = ",\"scope\":"@ + t19;
    let t17 = spec_json_str(c.picture) + t18;
    let t16 = ",\"picture\":"@ + t17;
    let t15 = spec_json_str(c.display_name) + t16;
    let t14 = ",\"display_name\":"@ + t15;
    let t13 = spec_json_str(c.name) + t14;
    let t12 = ",\"name\":"@ + t13;
    let t11 = spec_digits(c.iat as int) + t12;
    let t10 = ",\"iat\":"@ + t11;
    let t9 = spec_digits(c.exp as int) + t10;
    let t8 = ",\"exp\":"@ + t9;
    let t7 = spec_digits(c.nbf as int) + t8;
    let t6 = ",\"nbf\":"@ + t7;
    let t5 = spec_json_str_array(c.aud) + t6;
    let t4 = ",\"aud\":"@ + t5;
    let t3 = spec_json_str(c.sub) + t4;
    let t2 = ",\"sub\":"@ + t3;
    let t1 = spec_json_str(c.iss) + t2;
    let s = spec_claims_json(c);
    assert(s == "{\"iss\":"@ + t1);
    lemma_lit_round_trip("{\"iss\":"@, t1);
    lemma_str_round_trip(c.iss, t2);
    lemma_lit_round_trip(",\"sub\":"@, t3);
    lemma_str_round_trip(c.sub, t4);
    lemma_lit_round_trip(",\"aud\":"@, t5);
    lemma_array_round_trip(c.aud, t6);
    lemma_lit_round_trip(",\"nbf\":"@, t7);
    assert(t8[0] == ',');
    lemma_digits_round_trip(c.nbf, t8);
    lemma_lit_round_trip(",\"exp\":"@, t9);
    assert(t10[0] == ',');
    lemma_digits_round_trip(c.exp, t10);
    lemma_lit_round_trip(",\"iat\":"@, t11);
    assert(t12[0] == ',');
    lemma_digits_round_trip(c.iat, t12);
    lemma_lit_round_trip(",\"name\":"@, t13);
    lemma_str_round_trip(c.name, t14);
    lemma_lit_round_trip(",\"display_name\":"@, t15);
    lemma_str_round_trip(c.display_name, t16);
    lemma_lit_round_trip(",\"picture\":"@, t17);
    lemma_str_round_trip(c.picture, t18);
    lemma_lit_round_trip(",\"scope\":"@, t19);
    lemma_array_round_trip(c.scope, t20);
    lemma_lit_round_trip("}"@, Seq::<char>::empty());
    assert(t20 =~= "}"@ + Seq::<char>::empty());
    assert(spec_parse_lit(t20, "}"@) == Some(Seq::<char>::empty()));
}

} // verus!

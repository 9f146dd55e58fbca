//! Reading a payload text back into a claim set. Each function accepts
//! exactly what its specification counterpart in `json` accepts.

use vstd::prelude::*;
use vstd::string::StrSliceExecFns;
use crate::claims::{ClaimsView, UserJWT};
use crate::json::{
    is_dec_digit, spec_digit_prefix_len, spec_digits_val, spec_hex_val, spec_items_compose,
    spec_parse_claims, spec_parse_lit, spec_parse_str_array, spec_parse_str_items,
    spec_parse_strbody, spec_parse_string, spec_parse_u64, spec_strbody_compose,
    spec_unescape_simple, lemma_string_shrinks,
};
use crate::text::{char_from_u32, push_char};

verus! {

fn hex_val_exec(c: char) -> (r: Option<u8>)
    ensures
        r is Some <==> spec_hex_val(c) >= 0,
        r matches Some(v) ==> v as int == spec_hex_val(c),
{
    let u = c as u32;
    if 48 <= u && u <= 57 {
        Some((u - 48) as u8)
    } else if 97 <= u && u <= 102 {
        Some((u - 97 + 10) as u8)
    } else if 65 <= u && u <= 70 {
        Some((u - 65 + 10) as u8)
    } else {
        None
    }
}

/// Consumes an expected literal at a position.
#[verifier::loop_isolation(false)]
fn expect_lit(t: &str, i: usize, n: usize, lit: &str) -> (r: Option<usize>)
    requires
        n == t@.len(),
        i <= n,
    ensures
        r matches Some(j) ==> i <= j <= n && spec_parse_lit(t@.skip(i as int), lit@) == Some(
            t@.skip(j as int),
        ),
        r is None ==> spec_parse_lit(t@.skip(i as int), lit@) is None,
{
    let m = lit.unicode_len();
    if n - i < m {
        return None;
    }
    let mut k: usize = 0;
    while k < m
        invariant
            k <= m,
            m <= n - i,
            i <= n,
            n == t@.len(),
            m == lit@.len(),
            forall|q: int| 0 <= q < k ==> t@[i + q] == lit@[q],
        decreases m - k,
    {
        if t.get_char(i + k) != lit.get_char(k) {
            proof {
                let s = t@.skip(i as int);
                assert(s[k as int] == t@[i + k]);
                assert(s.take(m as int) != lit@) by {
                    assert(s.take(m as int)[k as int] != lit@[k as int]);
                }
            }
            return None;
        }
        k = k + 1;
    }
    proof {
        let s = t@.skip(i as int);
        assert(s.take(m as int) =~= lit@);
        assert(s.skip(m as int) =~= t@.skip(i + m));
    }
    Some(i + m)
}

/// Reads a quoted string at a position, yielding its content and the
/// position after the closing quote.
#[verifier::loop_isolation(false)]
fn parse_string_at(t: &str, i: usize, n: usize) -> (r: Option<(String, usize)>)
    requires
        n == t@.len(),
        i <= n,
    ensures
        r matches Some(p) ==> i < p.1 <= n && spec_parse_string(t@.skip(i as int)) == Some(
            (p.0@, t@.skip(p.1 as int)),
        ),
        r is None ==> spec_parse_string(t@.skip(i as int)) is None,
{
    if i >= n {
        return None;
    }
    if t.get_char(i) != '"' {
        proof {
            assert(t@.skip(i as int)[0] == t@[i as int]);
        }
        return None;
    }
    proof {
        assert(t@.skip(i as int)[0] == '"');
        assert(t@.skip(i as int).skip(1) =~= t@.skip(i as int + 1));
    }
    let mut content = String::new();
    let mut j: usize = i + 1;
    proof {
        crate::json::lemma_compose_empty(spec_parse_strbody(t@.skip(i as int + 1)));
    }
    loop
        invariant
            i + 1 <= j <= n,
            n == t@.len(),
            spec_parse_strbody(t@.skip(i as int + 1)) == spec_strbody_compose(
                content@,
                spec_parse_strbody(t@.skip(j as int)),
            ),
        decreases n - j,
    {
        if j >= n {
            return None;
        }
        let ghost rem = t@.skip(j as int);
        proof {
            assert(rem[0] == t@[j as int]);
        }
        let c = t.get_char(j);
        if c == '"' {
            proof {
                assert(rem.skip(1) =~= t@.skip(j as int + 1));
                assert(content@ + Seq::<char>::empty() =~= content@);
            }
            return Some((content, j + 1));
        } else if c == '\\' {
            if n - j < 2 {
                return None;
            }
            proof {
                assert(rem[1] == t@[j as int + 1]);
            }
            let e = t.get_char(j + 1);
            if e == 'u' {
                if n - j < 6 {
                    return None;
                }
                proof {
                    assert(rem[2] == t@[j as int + 2]);
                    assert(rem[3] == t@[j as int + 3]);
                    assert(rem[4] == t@[j as int + 4]);
                    assert(rem[5] == t@[j as int + 5]);
                }
                let h0 = hex_val_exec(t.get_char(j + 2));
                let h1 = hex_val_exec(t.get_char(j + 3));
                let h2 = hex_val_exec(t.get_char(j + 4));
                let h3 = hex_val_exec(t.get_char(j + 5));
                match (h0, h1, h2, h3) {
                    (Some(v0), Some(v1), Some(v2), Some(v3)) => {
                        let v: u32 = v0 as u32 * 4096 + v1 as u32 * 256 + v2 as u32 * 16
                            + v3 as u32;
                        if 0xD800 <= v && v <= 0xDFFF {
                            return None;
                        }
                        match char_from_u32(v) {
                            Some(ch) => {
                                let ghost pre = content@;
                                push_char(&mut content, ch);
                                proof {
                                    vstd::utf8::char_u32_cast(ch, v);
                                    assert(rem.skip(6) =~= t@.skip(j as int + 6));
                                    assert(content@ =~= pre + seq![ch]);
                                    crate::json::lemma_compose_cons(
                                        pre,
                                        ch,
                                        spec_parse_strbody(t@.skip(j as int + 6)),
                                    );
                                }
                                j = j + 6;
                            },
                            None => {
                                proof {
                                    assert(false);
                                }
                                return None;
                            },
                        }
                    },
                    _ => {
                        return None;
                    },
                }
            } else {
                let u: Option<char> = if e == '"' {
                    Some('"')
                } else if e == '\\' {
                    Some('\\')
                } else if e == '/' {
                    Some('/')
                } else if e == 'b' {
                    Some('\u{8}')
                } else if e == 'f' {
                    Some('\u{c}')
                } else if e == 'n' {
                    Some('\n')
                } else if e == 'r' {
                    Some('\r')
                } else if e == 't' {
                    Some('\t')
                } else {
                    None
                };
                proof {
                    assert(u == spec_unescape_simple(e));
                }
                match u {
                    Some(ch) => {
                        let ghost pre = content@;
                        push_char(&mut content, ch);
                        proof {
                            assert(rem.skip(2) =~= t@.skip(j as int + 2));
                            assert(content@ =~= pre + seq![ch]);
                            crate::json::lemma_compose_cons(
                                pre,
                                ch,
                                spec_parse_strbody(t@.skip(j as int + 2)),
                            );
                        }
                        j = j + 2;
                    },
                    None => {
                        return None;
                    },
                }
            }
        } else if (c as u32) < 32 {
            return None;
        } else {
            let ghost pre = content@;
            push_char(&mut content, c);
            proof {
                assert(rem.skip(1) =~= t@.skip(j as int + 1));
                assert(content@ =~= pre + seq![c]);
                crate::json::lemma_compose_cons(
                    pre,
                    c,
                    spec_parse_strbody(t@.skip(j as int + 1)),
                );
            }
            j = j + 1;
        }
    }
}

fn is_digit_char_at(t: &str, j: usize) -> (r: bool)
    requires
        j < t@.len(),
    ensures
        r == is_dec_digit(t@[j as int]),
{
    let c = t.get_char(j);
    48 <= c as u32 && c as u32 <= 57
}

/// Reads an unsigned decimal number at a position.
#[verifier::loop_isolation(false)]
fn parse_u64_at(t: &str, i: usize, n: usize) -> (r: Option<(u64, usize)>)
    requires
        n == t@.len(),
        i <= n,
    ensures
        r matches Some(p) ==> i <= p.1 <= n && spec_parse_u64(t@.skip(i as int)) == Some(
            (p.0, t@.skip(p.1 as int)),
        ),
        r is None ==> spec_parse_u64(t@.skip(i as int)) is None,
{
    let ghost s = t@.skip(i as int);
    // Find the end of the maximal digit prefix.
    let mut j: usize = i;
    while j < n && is_digit_char_at(t, j)
        invariant
            i <= j <= n,
            n == t@.len(),
            s == t@.skip(i as int),
            spec_digit_prefix_len(s) == (j - i) + spec_digit_prefix_len(t@.skip(j as int)),
            forall|q: int| i <= q < j ==> is_dec_digit(#[trigger] t@[q]),
        decreases n - j,
    {
        proof {
            assert(t@.skip(j as int)[0] == t@[j as int]);
            assert(t@.skip(j as int).skip(1) =~= t@.skip(j as int + 1));
        }
        j = j + 1;
    }
    proof {
        if j < n {
            assert(t@.skip(j as int)[0] == t@[j as int]);
        }
        assert(spec_digit_prefix_len(t@.skip(j as int)) == 0);
        assert(spec_digit_prefix_len(s) == j - i);
    }
    if j == i {
        return None;
    }
    proof {
        assert(s[0] == t@[i as int]);
    }
    if t.get_char(i) == '0' && j - i > 1 {
        return None;
    }
    // Accumulate the value, refusing anything beyond 64 bits.
    let ghost k = (j - i) as int;
    let mut acc: u64 = 0;
    let mut m: usize = i;
    while m < j
        invariant
            i <= m <= j <= n,
            n == t@.len(),
            s == t@.skip(i as int),
            k == j - i,
            spec_digit_prefix_len(s) == k,
            forall|q: int| i <= q < j ==> is_dec_digit(#[trigger] t@[q]),
            acc as int == spec_digits_val(s.take(m - i)),
        decreases j - m,
    {
        let c = t.get_char(m);
        let d = (c as u32 - 48) as u64;
        proof {
            assert(is_dec_digit(t@[m as int]));
            assert(s.take(m - i + 1).drop_last() =~= s.take(m - i));
            assert(s.take(m - i + 1).last() == t@[m as int]);
        }
        if acc > (u64::MAX - d) / 10 {
            proof {
                assert(spec_digits_val(s.take(m - i + 1)) == acc as int * 10 + d);
                assert(acc as int * 10 + d > u64::MAX) by (nonlinear_arith)
                    requires
                        acc as int > (u64::MAX - d as int) / 10,
                        0 <= d <= 9,
                        0 <= acc as int,
                ;
                crate::json::lemma_val_grows(s, m - i + 1, k);
                assert(spec_digits_val(s.take(k)) > u64::MAX);
            }
            return None;
        }
        proof {
            assert(acc as int * 10 + d <= u64::MAX) by (nonlinear_arith)
                requires
                    acc as int <= (u64::MAX - d as int) / 10,
                    0 <= d <= 9,
                    0 <= acc as int,
            ;
        }
        acc = acc * 10 + d;
        m = m + 1;
    }
    proof {
        assert(s.take(k) == s.take(m - i));
        assert(s.skip(k) =~= t@.skip(j as int));
    }
    Some((acc, j))
}

/// Reads a JSON array of strings at a position.
#[verifier::loop_isolation(false)]
fn parse_str_array_at(t: &str, i: usize, n: usize) -> (r: Option<(Vec<String>, usize)>)
    requires
        n == t@.len(),
        i <= n,
    ensures
        r matches Some(p) ==> i <= p.1 <= n && spec_parse_str_array(t@.skip(i as int)) == Some(
            (p.0.deep_view(), t@.skip(p.1 as int)),
        ),
        r is None ==> spec_parse_str_array(t@.skip(i as int)) is None,
{
    let ghost s = t@.skip(i as int);
    if i >= n {
        return None;
    }
    if t.get_char(i) != '[' {
        proof {
            assert(s[0] == t@[i as int]);
        }
        return None;
    }
    proof {
        assert(s[0] == '[');
    }
    if n - i >= 2 && t.get_char(i + 1) == ']' {
        let items: Vec<String> = Vec::new();
        proof {
            assert(s[1] == t@[i as int + 1]);
            assert(s.skip(2) =~= t@.skip(i as int + 2));
            assert(items.deep_view() =~= Seq::<Seq<char>>::empty());
        }
        return Some((items, i + 2));
    }
    proof {
        if n - i >= 2 {
            assert(s[1] == t@[i as int + 1]);
        }
        assert(s.skip(1) =~= t@.skip(i as int + 1));
    }
    let mut items: Vec<String> = Vec::new();
    let mut cur: usize = i + 1;
    proof {
        assert(items.deep_view() =~= Seq::<Seq<char>>::empty());
        crate::json::lemma_compose_empty_items(spec_parse_str_items(t@.skip(i as int + 1)));
    }
    loop
        invariant
            i + 1 <= cur <= n,
            n == t@.len(),
            s == t@.skip(i as int),
            s.len() >= 1 && s[0] == '[',
            !(s.len() >= 2 && s[1] == ']'),
            spec_parse_str_items(t@.skip(i as int + 1)) == spec_items_compose(
                items.deep_view(),
                spec_parse_str_items(t@.skip(cur as int)),
            ),
        decreases n - cur,
    {
        let ghost rem = t@.skip(cur as int);
        let ghost items0 = items.deep_view();
        match parse_string_at(t, cur, n) {
            None => {
                return None;
            },
            Some((item, j2)) => {
                proof {
                    lemma_string_shrinks(rem);
                }
                if j2 >= n {
                    return None;
                }
                let ghost after = t@.skip(j2 as int);
                proof {
                    assert(after[0] == t@[j2 as int]);
                }
                let sep = t.get_char(j2);
                let ghost iv = item@;
                items.push(item);
                proof {
                    assert(items.deep_view() =~= items0 + seq![iv]);
                }
                if sep == ']' {
                    proof {
                        assert(after.skip(1) =~= t@.skip(j2 as int + 1));
                        assert(spec_parse_str_items(rem) == Some(
                            (seq![iv], t@.skip(j2 as int + 1)),
                        ));
                        assert(items0 + seq![iv] =~= items.deep_view());
                    }
                    return Some((items, j2 + 1));
                } else if sep == ',' {
                    proof {
                        assert(after.skip(1) =~= t@.skip(j2 as int + 1));
                        assert(after.len() + 2 <= rem.len());
                        crate::json::lemma_compose_cons_item(
                            items0,
                            iv,
                            spec_parse_str_items(t@.skip(j2 as int + 1)),
                        );
                    }
                    cur = j2 + 1;
                } else {
                    return None;
                }
            },
        }
    }
}

/// Reads a complete canonical payload text into a claim set: the ten
/// required claims in order with nothing left over.
#[verifier::rlimit(100)]
pub fn parse_claims(t: &str) -> (r: Option<UserJWT>)
    ensures
        r matches Some(c) ==> spec_parse_claims(t@) == Some(c@),
        r is None ==> spec_parse_claims(t@) is None,
{
    let n = t.unicode_len();
    proof {
        assert(t@.skip(0) =~= t@);
    }
    let p0 = match expect_lit(t, 0, n, "{\"iss\":") {
        Some(j) => j,
        None => {
            return None;
        },
    };
    let (iss, p1) = match parse_string_at(t, p0, n) {
        Some(p) => p,
        None => {
            return None;
        },
    };
    let p2 = match expect_lit(t, p1, n, ",\"sub\":") {
        Some(j) => j,
        None => {
            return None;
        },
    };
    let (sub, p3) = match parse_string_at(t, p2, n) {
        Some(p) => p,
        None => {
            return None;
        },
    };
    let p4 = match expect_lit(t, p3, n, ",\"aud\":") {
        Some(j) => j,
        None => {
            return None;
        },
    };
    let (aud, p5) = match parse_str_array_at(t, p4, n) {
        Some(p) => p,
        None => {
            return None;
        },
    };
    let p6 = match expect_lit(t, p5, n, ",\"nbf\":") {
        Some(j) => j,
        None => {
            return None;
        },
    };
    let (nbf, p7) = match parse_u64_at(t, p6, n) {
        Some(p) => p,
        None => {
            return None;
        },
    };
    let p8 = match expect_lit(t, p7, n, ",\"exp\":") {
        Some(j) => j,
        None => {
            return None;
        },
    };
    let (exp, p9) = match parse_u64_at(t, p8, n) {
        Some(p) => p,
        None => {
            return None;
        },
    };
    let p10 = match expect_lit(t, p9, n, ",\"iat\":") {
        Some(j) => j,
        None => {
            return None;
        },
    };
    let (iat, p11) = match parse_u64_at(t, p10, n) {
        Some(p) => p,
        None => {
            return None;
        },
    };
    let p12 = match expect_lit(t, p11, n, ",\"name\":") {
        Some(j) => j,
        None => {
            return None;
        },
    };
    let (name, p13) = match parse_string_at(t, p12, n) {
        Some(p) => p,
        None => {
            return None;
        },
    };
    let p14 = match expect_lit(t, p13, n, ",\"display_name\":") {
        Some(j) => j,
        None => {
            return None;
        },
    };
    let (display_name, p15) = match parse_string_at(t, p14, n) {
        Some(p) => p,
        None => {
            return None;
        },
    };
    let p16 = match expect_lit(t, p15, n, ",\"picture\":") {
        Some(j) => j,
        None => {
            return None;
        },
    };
    let (picture, p17) = match parse_string_at(t, p16, n) {
        Some(p) => p,
        None => {
            return None;
        },
    };
    let p18 = match expect_lit(t, p17, n, ",\"scope\":") {
        Some(j) => j,
        None => {
            return None;
        },
    };
    let (scope, p19) = match parse_str_array_at(t, p18, n) {
        Some(p) => p,
        None => {
            return None;
        },
    };
    let p20 = match expect_lit(t, p19, n, "}") {
        Some(j) => j,
        None => {
            return None;
        },
    };
    if p20 != n {
        proof {
            assert(t@.skip(p20 as int).len() != 0);
        }
        return None;
    }
    proof {
        assert(t@.skip(p20 as int).len() == 0);
    }
    let ghost cv = ClaimsView {
        iss: iss@,
        sub: sub@,
        aud: aud.deep_view(),
        nbf,
        exp,
        iat,
        name: name@,
        display_name: display_name@,
        picture: picture@,
        scope: scope.deep_view(),
    };
    proof {
        assert(spec_parse_claims(t@) == Some(cv));
    }
    let c = UserJWT { iss, sub, aud, nbf, exp, iat, name, display_name, picture, scope };
    proof {
        assert(c@ =~~= cv);
    }
    Some(c)
}

} // verus!

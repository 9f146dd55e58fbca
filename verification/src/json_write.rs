//! Writing the canonical payload text of a claim set.

use vstd::prelude::*;
use vstd::string::StrSliceExecFns;
use vstd::string::StringExecFns;
use crate::claims::UserJWT;
use crate::json::{
    hex_digit, spec_claims_json, spec_escape, spec_escape_char, spec_digits, spec_items_tail,
    spec_json_str, spec_json_str_array, spec_json_str_items, lemma_items_split,
};
use crate::text::push_char;

verus! {

fn hex_digit_exec(v: u8) -> (c: char)
    requires
        v < 16,
    ensures
        c == hex_digit(v as int),
{
    let b: u8 = if v < 10 {
        48 + v
    } else {
        87 + v
    };
    b as char
}

fn escape_into(out: &mut String, s: &str)
    ensures
        final(out)@ == old(out)@ + spec_escape(s@),
{
    let n = s.unicode_len();
    proof {
        assert(s@.skip(0) =~= s@);
    }
    let mut i: usize = 0;
    while i < n
        invariant
            n == s@.len(),
            i <= n,
            out@ + spec_escape(s@.skip(i as int)) == old(out)@ + spec_escape(s@),
        decreases n - i,
    {
        let c = s.get_char(i);
        let ghost pre = out@;
        if c == '"' {
            push_char(out, '\\');
            push_char(out, '"');
        } else if c == '\\' {
            push_char(out, '\\');
            push_char(out, '\\');
        } else if (c as u32) < 32 {
            let v = c as u32;
            push_char(out, '\\');
            push_char(out, 'u');
            push_char(out, '0');
            push_char(out, '0');
            push_char(out, hex_digit_exec((v / 16) as u8));
            push_char(out, hex_digit_exec((v % 16) as u8));
        } else {
            push_char(out, c);
        }
        proof {
            assert(out@ =~= pre + spec_escape_char(c));
            assert(s@.skip(i as int)[0] == c);
            assert(s@.skip(i as int).skip(1) =~= s@.skip(i as int + 1));
            assert(out@ + spec_escape(s@.skip(i as int + 1)) =~= pre + spec_escape(
                s@.skip(i as int),
            ));
        }
        i = i + 1;
    }
    proof {
        assert(s@.skip(n as int) =~= Seq::<char>::empty());
        assert(out@ + spec_escape(s@.skip(n as int)) =~= out@);
    }
}

fn json_str_into(out: &mut String, s: &str)
    ensures
        final(out)@ == old(out)@ + spec_json_str(s@),
{
    push_char(out, '"');
    escape_into(out, s);
    push_char(out, '"');
    proof {
        assert(out@ =~= old(out)@ + spec_json_str(s@));
    }
}

fn digits_into(out: &mut String, n: u64)
    ensures
        final(out)@ == old(out)@ + spec_digits(n as int),
    decreases n,
{
    if n < 10 {
        push_char(out, hex_digit_exec(n as u8));
        proof {
            assert(out@ =~= old(out)@ + spec_digits(n as int));
        }
    } else {
        digits_into(out, n / 10);
        push_char(out, hex_digit_exec((n % 10) as u8));
        proof {
            assert((n / 10) as int == n as int / 10);
            assert((n % 10) as int == n as int % 10);
            assert(out@ =~= old(out)@ + spec_digits(n as int));
        }
    }
}

fn str_array_into(out: &mut String, items: &Vec<String>)
    ensures
        final(out)@ == old(out)@ + spec_json_str_array(items.deep_view()),
{
    let ghost dv = items.deep_view();
    push_char(out, '[');
    if items.len() == 0 {
        push_char(out, ']');
        proof {
            assert(dv.len() == 0);
            assert(out@ =~= old(out)@ + spec_json_str_array(dv));
        }
    } else {
        json_str_into(out, items[0].as_str());
        proof {
            assert(dv[0] == items[0]@);
            lemma_items_split(dv);
        }
        let mut i: usize = 1;
        while i < items.len()
            invariant
                1 <= i <= items.len(),
                dv == items.deep_view(),
                dv.len() == items.len(),
                out@ + spec_items_tail(dv.skip(i as int)) == old(out)@ + seq!['[']
                    + spec_json_str_items(dv),
            decreases items.len() - i,
        {
            let ghost pre = out@;
            push_char(out, ',');
            json_str_into(out, items[i].as_str());
            proof {
                assert(dv.skip(i as int)[0] == items[i as int]@);
                assert(dv.skip(i as int).skip(1) =~= dv.skip(i as int + 1));
                assert(out@ =~= pre + (seq![','] + spec_json_str(dv.skip(i as int)[0])));
                assert(out@ + spec_items_tail(dv.skip(i as int + 1)) =~= pre + spec_items_tail(
                    dv.skip(i as int),
                ));
            }
            i = i + 1;
        }
        push_char(out, ']');
        proof {
            assert(dv.skip(items.len() as int).len() == 0);
            assert(out@ =~= old(out)@ + spec_json_str_array(dv));
        }
    }
}

/// The canonical payload text of a claim set, as executable code.
#[verifier::rlimit(100)]
pub fn claims_json(c: &UserJWT) -> (r: String)
    ensures
        r@ == spec_claims_json(c@),
{
    let mut out = String::new();
    out.append("{\"iss\":");
    json_str_into(&mut out, c.iss.as_str());
    out.append(",\"sub\":");
    json_str_into(&mut out, c.sub.as_str());
    out.append(",\"aud\":");
    str_array_into(&mut out, &c.aud);
    out.append(",\"nbf\":");
    digits_into(&mut out, c.nbf);
    out.append(",\"exp\":");
    digits_into(&mut out, c.exp);
    out.append(",\"iat\":");
    digits_into(&mut out, c.iat);
    out.append(",\"name\":");
    json_str_into(&mut out, c.name.as_str());
    out.append(",\"display_name\":");
    json_str_into(&mut out, c.display_name.as_str());
    out.append(",\"picture\":");
    json_str_into(&mut out, c.picture.as_str());
    out.append(",\"scope\":");
    str_array_into(&mut out, &c.scope);
    out.append("}");
    proof {
        assert(out@ =~= spec_claims_json(c@));
    }
    out
}

} // verus!

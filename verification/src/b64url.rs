//! Unpadded URL-safe base64: the text encoding of the two data segments of
//! a compact token, with a verified decoder that accepts exactly the
//! canonical encodings.

use vstd::prelude::*;
use vstd::string::StrSliceExecFns;
use crate::text::push_char;

verus! {

/// The alphabet: values 0..64 map to A-Z, a-z, 0-9, '-', '_'.
pub open spec fn b64_char(v: int) -> char {
    if 0 <= v < 26 {
        ((65 + v) as u8) as char
    } else if 26 <= v < 52 {
        ((97 + (v - 26)) as u8) as char
    } else if 52 <= v < 62 {
        ((48 + (v - 52)) as u8) as char
    } else if v == 62 {
        '-'
    } else {
        '_'
    }
}

/// The value of an alphabet character, or -1 for anything else.
pub open spec fn b64_val(c: char) -> int {
    let u = c as int;
    if 65 <= u <= 90 {
        u - 65
    } else if 97 <= u <= 122 {
        u - 97 + 26
    } else if 48 <= u <= 57 {
        u - 48 + 52
    } else if c == '-' {
        62
    } else if c == '_' {
        63
    } else {
        -1
    }
}

pub open spec fn is_b64_char(c: char) -> bool {
    b64_val(c) >= 0
}

/// The canonical unpadded URL-safe base64 text of a byte sequence, three
/// bytes to four characters, with a short final group and zero trailing
/// bits.
pub open spec fn spec_b64url(s: Seq<u8>) -> Seq<char>
    decreases s.len(),
{
    if s.len() == 0 {
        Seq::empty()
    } else if s.len() == 1 {
        seq![b64_char(s[0] as int / 4), b64_char((s[0] as int % 4) * 16)]
    } else if s.len() == 2 {
        seq![
            b64_char(s[0] as int / 4),
            b64_char((s[0] as int % 4) * 16 + s[1] as int / 16),
            b64_char((s[1] as int % 16) * 4),
        ]
    } else {
        seq![
            b64_char(s[0] as int / 4),
            b64_char((s[0] as int % 4) * 16 + s[1] as int / 16),
            b64_char((s[1] as int % 16) * 4 + s[2] as int / 64),
            b64_char(s[2] as int % 64),
        ] + spec_b64url(s.skip(3))
    }
}

/// What the decoder yields: the bytes whose canonical encoding the text is,
/// or nothing when the text is not such an encoding.
pub open spec fn spec_b64url_decode(t: Seq<char>) -> Option<Seq<u8>>
    decreases t.len(),
{
    if t.len() == 0 {
        Some(Seq::empty())
    } else if t.len() == 1 {
        None
    } else if t.len() == 2 {
        let v0 = b64_val(t[0]);
        let v1 = b64_val(t[1]);
        if v0 >= 0 && v1 >= 0 && v1 % 16 == 0 {
            Some(seq![(v0 * 4 + v1 / 16) as u8])
        } else {
            None
        }
    } else if t.len() == 3 {
        let v0 = b64_val(t[0]);
        let v1 = b64_val(t[1]);
        let v2 = b64_val(t[2]);
        if v0 >= 0 && v1 >= 0 && v2 >= 0 && v2 % 4 == 0 {
            Some(seq![(v0 * 4 + v1 / 16) as u8, ((v1 % 16) * 16 + v2 / 4) as u8])
        } else {
            None
        }
    } else {
        let v0 = b64_val(t[0]);
        let v1 = b64_val(t[1]);
        let v2 = b64_val(t[2]);
        let v3 = b64_val(t[3]);
        if v0 >= 0 && v1 >= 0 && v2 >= 0 && v3 >= 0 {
            match spec_b64url_decode(t.skip(4)) {
                Some(rest) => Some(
                    seq![
                        (v0 * 4 + v1 / 16) as u8,
                        ((v1 % 16) * 16 + v2 / 4) as u8,
                        ((v2 % 4) * 64 + v3) as u8,
                    ] + rest,
                ),
                None => None,
            }
        } else {
            None
        }
    }
}

/// Every alphabet character decodes back to the value it encodes.
pub proof fn lemma_b64_char_val(v: int)
    requires
        0 <= v < 64,
    ensures
        b64_val(b64_char(v)) == v,
        is_b64_char(b64_char(v)),
{
}

/// Canonical encodings use only alphabet characters, and never have length
/// one more than a multiple of four.
pub proof fn lemma_b64url_charset(s: Seq<u8>)
    ensures
        forall|k: int|
            0 <= k < spec_b64url(s).len() ==> is_b64_char(#[trigger] spec_b64url(s)[k]),
        spec_b64url(s).len() % 4 != 1,
        spec_b64url(s).len() == 0 ==> s.len() == 0,
    decreases s.len(),
{
    if s.len() == 0 {
    } else if s.len() == 1 {
        lemma_b64_char_val(s[0] as int / 4);
        lemma_b64_char_val((s[0] as int % 4) * 16);
    } else if s.len() == 2 {
        lemma_b64_char_val(s[0] as int / 4);
        lemma_b64_char_val((s[0] as int % 4) * 16 + s[1] as int / 16);
        lemma_b64_char_val((s[1] as int % 16) * 4);
    } else {
        lemma_b64_char_val(s[0] as int / 4);
        lemma_b64_char_val((s[0] as int % 4) * 16 + s[1] as int / 16);
        lemma_b64_char_val((s[1] as int % 16) * 4 + s[2] as int / 64);
        lemma_b64_char_val(s[2] as int % 64);
        lemma_b64url_charset(s.skip(3));
    }
}

/// Decoding a canonical encoding yields exactly the bytes it encodes.
pub proof fn lemma_b64url_round_trip(s: Seq<u8>)
    ensures
        spec_b64url_decode(spec_b64url(s)) == Some(s),
    decreases s.len(),
{
    let t = spec_b64url(s);
    if s.len() == 0 {
        assert(s =~= Seq::<u8>::empty());
    } else if s.len() == 1 {
        lemma_b64_char_val(s[0] as int / 4);
        lemma_b64_char_val((s[0] as int % 4) * 16);
        assert(spec_b64url_decode(t) == Some(seq![((s[0] as int / 4) * 4 + ((s[0] as int % 4) * 16) / 16) as u8]));
        assert(seq![((s[0] as int / 4) * 4 + ((s[0] as int % 4) * 16) / 16) as u8] =~= s);
    } else if s.len() == 2 {
        lemma_b64_char_val(s[0] as int / 4);
        lemma_b64_char_val((s[0] as int % 4) * 16 + s[1] as int / 16);
        lemma_b64_char_val((s[1] as int % 16) * 4);
        let v0 = b64_val(t[0]);
        let v1 = b64_val(t[1]);
        let v2 = b64_val(t[2]);
        assert((v0 * 4 + v1 / 16) as u8 == s[0]);
        assert(((v1 % 16) * 16 + v2 / 4) as u8 == s[1]);
        assert(seq![(v0 * 4 + v1 / 16) as u8, ((v1 % 16) * 16 + v2 / 4) as u8] =~= s);
    } else {
        lemma_b64_char_val(s[0] as int / 4);
        lemma_b64_char_val((s[0] as int % 4) * 16 + s[1] as int / 16);
        lemma_b64_char_val((s[1] as int % 16) * 4 + s[2] as int / 64);
        lemma_b64_char_val(s[2] as int % 64);
        lemma_b64url_round_trip(s.skip(3));
        lemma_b64url_charset(s.skip(3));
        assert(t.skip(4) =~= spec_b64url(s.skip(3)));
        let v0 = b64_val(t[0]);
        let v1 = b64_val(t[1]);
        let v2 = b64_val(t[2]);
        let v3 = b64_val(t[3]);
        assert((v0 * 4 + v1 / 16) as u8 == s[0]);
        assert(((v1 % 16) * 16 + v2 / 4) as u8 == s[1]);
        assert(((v2 % 4) * 64 + v3) as u8 == s[2]);
        let head = seq![
            (v0 * 4 + v1 / 16) as u8,
            ((v1 % 16) * 16 + v2 / 4) as u8,
            ((v2 % 4) * 64 + v3) as u8,
        ];
        assert(head + s.skip(3) =~= s);
    }
}

fn b64_char_exec(v: u8) -> (c: char)
    requires
        v < 64,
    ensures
        c == b64_char(v as int),
{
    let b: u8 = if v < 26 {
        65 + v
    } else if v < 52 {
        97 + (v - 26)
    } else if v < 62 {
        48 + (v - 52)
    } else if v == 62 {
        45
    } else {
        95
    };
    b as char
}

fn b64_val_exec(c: char) -> (r: Option<u8>)
    ensures
        r is Some <==> is_b64_char(c),
        r matches Some(v) ==> v as int == b64_val(c),
{
    let u = c as u32;
    if 65 <= u && u <= 90 {
        Some((u - 65) as u8)
    } else if 97 <= u && u <= 122 {
        Some((u - 97 + 26) as u8)
    } else if 48 <= u && u <= 57 {
        Some((u - 48 + 52) as u8)
    } else if u == 45 {
        proof {
            assert('-' as int == 45);
        }
        Some(62)
    } else if u == 95 {
        proof {
            assert('_' as int == 95);
        }
        Some(63)
    } else {
        None
    }
}

/// Encodes bytes as canonical unpadded URL-safe base64 text.
pub fn b64url_encode(s: &[u8]) -> (r: String)
    ensures
        r@ == spec_b64url(s@),
{
    let mut out = String::new();
    let mut i: usize = 0;
    proof {
        assert(s@.skip(0) =~= s@);
    }
    while s.len() - i >= 3
        invariant
            i <= s.len(),
            spec_b64url(s@) == out@ + spec_b64url(s@.skip(i as int)),
        decreases s.len() - i,
    {
        let b0 = s[i];
        let b1 = s[i + 1];
        let b2 = s[i + 2];
        push_char(&mut out, b64_char_exec(b0 / 4));
        push_char(&mut out, b64_char_exec((b0 % 4) * 16 + b1 / 16));
        push_char(&mut out, b64_char_exec((b1 % 16) * 4 + b2 / 64));
        push_char(&mut out, b64_char_exec(b2 % 64));
        proof {
            assert(s@.skip(i as int).len() >= 3);
            assert(s@.skip(i as int)[0] == b0);
            assert(s@.skip(i as int)[1] == b1);
            assert(s@.skip(i as int)[2] == b2);
            assert(s@.skip(i as int).skip(3) =~= s@.skip(i as int + 3));
            assert(spec_b64url(s@) == out@ + spec_b64url(s@.skip(i as int + 3)));
        }
        i = i + 3;
    }
    if s.len() - i == 1 {
        let b0 = s[i];
        push_char(&mut out, b64_char_exec(b0 / 4));
        push_char(&mut out, b64_char_exec((b0 % 4) * 16));
        proof {
            assert(s@.skip(i as int).len() == 1);
            assert(s@.skip(i as int)[0] == b0);
            assert(out@ =~= spec_b64url(s@));
        }
    } else if s.len() - i == 2 {
        let b0 = s[i];
        let b1 = s[i + 1];
        push_char(&mut out, b64_char_exec(b0 / 4));
        push_char(&mut out, b64_char_exec((b0 % 4) * 16 + b1 / 16));
        push_char(&mut out, b64_char_exec((b1 % 16) * 4));
        proof {
            assert(s@.skip(i as int).len() == 2);
            assert(s@.skip(i as int)[0] == b0);
            assert(s@.skip(i as int)[1] == b1);
            assert(out@ =~= spec_b64url(s@));
        }
    } else {
        proof {
            assert(s@.skip(i as int).len() == 0);
            assert(out@ =~= spec_b64url(s@));
        }
    }
    out
}

/// How a decoded prefix composes with the decoding of the remaining text.
pub open spec fn spec_decode_compose(pre: Seq<u8>, rest: Option<Seq<u8>>) -> Option<Seq<u8>> {
    match rest {
        Some(r) => Some(pre + r),
        None => None,
    }
}

/// Decodes a slice of a string's characters as canonical unpadded URL-safe
/// base64, accepting exactly the canonical encodings.
pub fn b64url_decode(t: &str, from: usize, to: usize) -> (r: Option<Vec<u8>>)
    requires
        from <= to <= t@.len(),
    ensures
        r matches Some(v) ==> spec_b64url_decode(t@.subrange(from as int, to as int))
            == Some(v@),
        r is None ==> spec_b64url_decode(t@.subrange(from as int, to as int)) is None,
{
    let ghost seg = t@.subrange(from as int, to as int);
    let mut out: Vec<u8> = Vec::new();
    let mut i: usize = from;
    proof {
        assert(seg.skip(0) =~= seg);
    }
    while to - i >= 4
        invariant
            from <= i <= to <= t@.len(),
            seg == t@.subrange(from as int, to as int),
            spec_b64url_decode(seg) == spec_decode_compose(
                out@,
                spec_b64url_decode(seg.skip(i - from)),
            ),
        decreases to - i,
    {
        let ghost rem = seg.skip(i - from);
        proof {
            assert(rem.len() >= 4);
            assert(rem[0] == t@[i as int]);
            assert(rem[1] == t@[i as int + 1]);
            assert(rem[2] == t@[i as int + 2]);
            assert(rem[3] == t@[i as int + 3]);
        }
        let c0 = b64_val_exec(t.get_char(i));
        let c1 = b64_val_exec(t.get_char(i + 1));
        let c2 = b64_val_exec(t.get_char(i + 2));
        let c3 = b64_val_exec(t.get_char(i + 3));
        match (c0, c1, c2, c3) {
            (Some(v0), Some(v1), Some(v2), Some(v3)) => {
                out.push(v0 * 4 + v1 / 16);
                out.push((v1 % 16) * 16 + v2 / 4);
                out.push((v2 % 4) * 64 + v3);
                proof {
                    assert(rem.skip(4) =~= seg.skip(i - from + 4));
                    assert(spec_b64url_decode(seg) == spec_decode_compose(
                        out@,
                        spec_b64url_decode(seg.skip(i - from + 4)),
                    ));
                }
                i = i + 4;
            },
            _ => {
                return None;
            },
        }
    }
    let ghost rem = seg.skip(i - from);
    if i == to {
        proof {
            assert(rem.len() == 0);
            assert(out@ + Seq::<u8>::empty() =~= out@);
        }
        Some(out)
    } else if i + 1 == to {
        proof {
            assert(rem.len() == 1);
        }
        None
    } else if i + 2 == to {
        proof {
            assert(rem.len() == 2);
            assert(rem[0] == t@[i as int]);
            assert(rem[1] == t@[i as int + 1]);
        }
        let c0 = b64_val_exec(t.get_char(i));
        let c1 = b64_val_exec(t.get_char(i + 1));
        match (c0, c1) {
            (Some(v0), Some(v1)) if v1 % 16 == 0 => {
                out.push(v0 * 4 + v1 / 16);
                proof {
                    assert(spec_b64url_decode(rem) == Some(seq![out@.last()]));
                    assert(out@ =~= out@.drop_last() + seq![out@.last()]);
                }
                Some(out)
            },
            _ => None,
        }
    } else {
        proof {
            assert(rem.len() == 3);
            assert(rem[0] == t@[i as int]);
            assert(rem[1] == t@[i as int + 1]);
            assert(rem[2] == t@[i as int + 2]);
        }
        let c0 = b64_val_exec(t.get_char(i));
        let c1 = b64_val_exec(t.get_char(i + 1));
        let c2 = b64_val_exec(t.get_char(i + 2));
        match (c0, c1, c2) {
            (Some(v0), Some(v1), Some(v2)) if v2 % 4 == 0 => {
                out.push(v0 * 4 + v1 / 16);
                out.push((v1 % 16) * 16 + v2 / 4);
                proof {
                    let b0 = out@[out@.len() - 2];
                    let b1 = out@.last();
                    assert(spec_b64url_decode(rem) == Some(seq![b0, b1]));
                    assert(out@ =~= out@.drop_last().drop_last() + seq![b0, b1]);
                }
                Some(out)
            },
            _ => None,
        }
    }
}

} // verus!

//! Signing a claim set into a compact token, and validating a compact token
//! back into a claim set.
//!
//! A token is three unpadded URL-safe base64 segments joined by dots: the
//! fixed header, the payload, and the RS512 signature over the first two
//! segments. The header pins the signing algorithm: validation accepts only
//! the one exact header this module signs with, so no other algorithm —
//! "none" included — is ever accepted. Validation failures are deliberately
//! flattened into one opaque failure so the verifier leaks nothing to a
//! probing caller.

use vstd::prelude::*;
use vstd::string::StrSliceExecFns;
use vstd::string::StringExecFns;
use vstd::utf8::{decode_utf8, encode_utf8, valid_utf8};
use crate::b64url::{b64url_decode, b64url_encode, is_b64_char, spec_b64url, spec_b64url_decode};
use crate::claims::{
    spec_audience, spec_issuer, ClaimsView, UserJWT, LEEWAY_SECONDS,
};
use crate::errors::FluffError;
use crate::json::spec_parse_claims;
use crate::json_read::parse_claims;
use crate::json_write::claims_json;
use crate::text::{push_char, string_from_utf8};

verus! {

// ---------------------------------------------------------------------------
// The cryptographic boundary.
// ---------------------------------------------------------------------------

/// Whether these bytes are a well-formed PEM-encoded RSA private key, as
/// jsonwebtoken::EncodingKey::from_rsa_pem decides it.
pub uninterp spec fn is_rsa_private_pem(pem: Seq<u8>) -> bool;

/// Whether these bytes are a well-formed PEM-encoded RSA public key, as
/// jsonwebtoken::DecodingKey::from_rsa_pem decides it.
pub uninterp spec fn is_rsa_public_pem(pem: Seq<u8>) -> bool;

/// The RS512 signature text of a message under a private key, as
/// jsonwebtoken::crypto::sign returns it. RS512 is RSA PKCS#1 v1.5 over
/// SHA-512, so the signature is a function of the key and message alone.
pub uninterp spec fn rs512_signature(pem: Seq<u8>, msg: Seq<char>) -> Seq<char>;

/// Whether a signature text verifies against a message under a public key,
/// as jsonwebtoken::crypto::verify decides it.
pub uninterp spec fn rs512_verifies(pem: Seq<u8>, msg: Seq<char>, sig: Seq<char>) -> bool;

enum SignFailure {
    BadKey,
    SigningFailed,
}

/// Relies on jsonwebtoken::EncodingKey::from_rsa_pem, which succeeds exactly
/// on well-formed RSA private PEMs, and jsonwebtoken::crypto::sign with
/// RS512, a deterministic function of key and message whose result is
/// unpadded URL-safe base64 text.
#[verifier::external_body]
fn rs512_sign(pem: &[u8], message: &str) -> (r: Result<String, SignFailure>)
    ensures
        r matches Ok(sig) ==> {
            &&& is_rsa_private_pem(pem@)
            &&& sig@ == rs512_signature(pem@, message@)
            &&& forall|k: int| 0 <= k < sig@.len() ==> is_b64_char(#[trigger] sig@[k])
        },
        r matches Err(e) ==> (e is BadKey <==> !is_rsa_private_pem(pem@)),
{
    let key = match jsonwebtoken::EncodingKey::from_rsa_pem(pem) {
        Ok(k) => k,
        Err(_) => {
            return Err(SignFailure::BadKey);
        },
    };
    match jsonwebtoken::crypto::sign(message.as_bytes(), &key, jsonwebtoken::Algorithm::RS512) {
        Ok(sig) => Ok(sig),
        Err(_) => Err(SignFailure::SigningFailed),
    }
}

/// Relies on jsonwebtoken::DecodingKey::from_rsa_pem, which succeeds exactly
/// on well-formed RSA public PEMs, and jsonwebtoken::crypto::verify with
/// RS512, a deterministic function of key, message and signature text; a
/// signature text that cannot be decoded does not verify.
#[verifier::external_body]
fn rs512_verify(pem: &[u8], message: &str, signature: &str) -> (r: Result<bool, ()>)
    ensures
        r matches Ok(b) ==> is_rsa_public_pem(pem@) && b == rs512_verifies(
            pem@,
            message@,
            signature@,
        ),
        r is Err ==> !is_rsa_public_pem(pem@),
{
    let key = match jsonwebtoken::DecodingKey::from_rsa_pem(pem) {
        Ok(k) => k,
        Err(_) => {
            return Err(());
        },
    };
    match jsonwebtoken::crypto::verify(
        signature,
        message.as_bytes(),
        &key,
        jsonwebtoken::Algorithm::RS512,
    ) {
        Ok(b) => Ok(b),
        Err(_) => Ok(false),
    }
}

// ---------------------------------------------------------------------------
// The token's shape.
// ---------------------------------------------------------------------------

/// The one header this module signs with and the only one it accepts.
pub open spec fn spec_header_json() -> Seq<char> {
    "{\"typ\":\"JWT\",\"alg\":\"RS512\"}"@
}

fn header_json() -> (r: &'static str)
    ensures
        r@ == spec_header_json(),
{
    "{\"typ\":\"JWT\",\"alg\":\"RS512\"}"
}

/// The signed part of a token: the header and payload segments joined by a
/// dot.
pub open spec fn spec_signing_input(c: ClaimsView) -> Seq<char> {
    spec_b64url(encode_utf8(spec_header_json())) + seq!['.'] + spec_b64url(
        encode_utf8(crate::json::spec_claims_json(c)),
    )
}

/// The complete signed token for a claim set under a private key.
pub open spec fn spec_signed_token(c: ClaimsView, pem: Seq<u8>) -> Seq<char> {
    spec_signing_input(c) + seq!['.'] + rs512_signature(pem, spec_signing_input(c))
}

/// The validation policy on a parsed claim set at a given time: the fixed
/// issuer, the fixed audience among the recipients, and the current time
/// within the leeway-extended validity window.
pub open spec fn spec_claims_policy_ok(c: ClaimsView, now: u64) -> bool {
    &&& c.iss == spec_issuer()
    &&& c.aud.contains(spec_audience())
    &&& c.nbf <= now + LEEWAY_SECONDS
    &&& c.exp + LEEWAY_SECONDS >= now
}

/// The first dot at or after a position.
pub open spec fn spec_find_dot(s: Seq<char>, from: int) -> Option<int>
    decreases s.len() - from,
{
    if from < 0 || from >= s.len() {
        None
    } else if s[from] == '.' {
        Some(from)
    } else {
        spec_find_dot(s, from + 1)
    }
}

/// The positions of the two dots of a well-formed token: exactly two.
pub open spec fn spec_split3(s: Seq<char>) -> Option<(int, int)> {
    match spec_find_dot(s, 0) {
        Some(i) => match spec_find_dot(s, i + 1) {
            Some(j) => match spec_find_dot(s, j + 1) {
                None => Some((i, j)),
                Some(_) => None,
            },
            None => None,
        },
        None => None,
    }
}

/// What validating a token text under a public key at a time yields: the
/// claims exactly when the token splits into three segments, the header
/// segment decodes to the one accepted header, the signature verifies over
/// the first two segments, the payload decodes to a canonical claim text,
/// and the claims pass the policy.
pub open spec fn spec_validate_token(tok: Seq<char>, pem: Seq<u8>, now: u64) -> Option<
    ClaimsView,
> {
    match spec_split3(tok) {
        None => None,
        Some((i, j)) => {
            let header_seg = tok.take(i);
            let payload_seg = tok.subrange(i + 1, j);
            let sig_seg = tok.skip(j + 1);
            let msg = tok.take(j);
            if spec_b64url_decode(header_seg) != Some(encode_utf8(spec_header_json())) {
                None
            } else if !rs512_verifies(pem, msg, sig_seg) {
                None
            } else {
                match spec_b64url_decode(payload_seg) {
                    None => None,
                    Some(pb) => if !valid_utf8(pb) {
                        None
                    } else {
                        match spec_parse_claims(decode_utf8(pb)) {
                            None => None,
                            Some(cv) => if spec_claims_policy_ok(cv, now) {
                                Some(cv)
                            } else {
                                None
                            },
                        }
                    },
                }
            }
        },
    }
}

// ---------------------------------------------------------------------------
// Executable signing and validation.
// ---------------------------------------------------------------------------

#[verifier::loop_isolation(false)]
fn find_dot(t: &str, from: usize, n: usize) -> (r: Option<usize>)
    requires
        n == t@.len(),
        from <= n,
    ensures
        r matches Some(k) ==> from <= k < n && t@[k as int] == '.' && spec_find_dot(
            t@,
            from as int,
        ) == Some(k as int),
        r is None ==> spec_find_dot(t@, from as int) is None,
{
    let mut cur: usize = from;
    while cur < n
        invariant
            from <= cur <= n,
            spec_find_dot(t@, from as int) == spec_find_dot(t@, cur as int),
        decreases n - cur,
    {
        if t.get_char(cur) == '.' {
            return Some(cur);
        }
        cur = cur + 1;
    }
    None
}

#[verifier::loop_isolation(false)]
fn bytes_eq(a: &[u8], b: &Vec<u8>) -> (r: bool)
    ensures
        r == (a@ == b@),
{
    if a.len() != b.len() {
        proof {
            assert(a@ != b@);
        }
        return false;
    }
    let mut k: usize = 0;
    while k < a.len()
        invariant
            k <= a.len(),
            a@.len() == b@.len(),
            forall|q: int| 0 <= q < k ==> a@[q] == b@[q],
        decreases a.len() - k,
    {
        if a[k] != b[k] {
            proof {
                assert(a@ != b@) by {
                    assert(a@[k as int] != b@[k as int]);
                }
            }
            return false;
        }
        k = k + 1;
    }
    proof {
        assert(a@ =~= b@);
    }
    true
}

#[verifier::loop_isolation(false)]
fn str_eq(a: &str, b: &str) -> (r: bool)
    ensures
        r == (a@ == b@),
{
    let n = a.unicode_len();
    let m = b.unicode_len();
    if n != m {
        proof {
            assert(a@ != b@);
        }
        return false;
    }
    let mut k: usize = 0;
    while k < n
        invariant
            k <= n,
            n == a@.len() == b@.len(),
            forall|q: int| 0 <= q < k ==> a@[q] == b@[q],
        decreases n - k,
    {
        if a.get_char(k) != b.get_char(k) {
            proof {
                assert(a@ != b@) by {
                    assert(a@[k as int] != b@[k as int]);
                }
            }
            return false;
        }
        k = k + 1;
    }
    proof {
        assert(a@ =~= b@);
    }
    true
}

#[verifier::loop_isolation(false)]
fn contains_audience(aud: &Vec<String>) -> (r: bool)
    ensures
        r == aud.deep_view().contains(spec_audience()),
{
    let mut k: usize = 0;
    while k < aud.len()
        invariant
            k <= aud.len(),
            forall|q: int| 0 <= q < k ==> aud.deep_view()[q] != spec_audience(),
        decreases aud.len() - k,
    {
        if str_eq(aud[k].as_str(), crate::claims::audience()) {
            proof {
                assert(aud.deep_view()[k as int] == spec_audience());
            }
            return true;
        }
        k = k + 1;
    }
    proof {
        assert(!aud.deep_view().contains(spec_audience()));
    }
    false
}

fn jwt_decoding_failed() -> (e: FluffError)
    ensures
        e.error_name@ == "JWTDecodingFailed"@,
        e.http_code == 500,
        e.can_retry,
{
    FluffError::new_u16(500, "JWTDecodingFailed", "Unable to decode and validate JWT", true)
}

impl UserJWT {
    /// Signs this claim set into a compact token under a private key: the
    /// fixed header and the canonical payload, base64-encoded and joined by
    /// a dot, then the RS512 signature of that text as the third segment.
    /// Fails when the key bytes are not a well-formed RSA private key, or
    /// when the signing step itself fails; both are flagged retryable.
    pub fn sign(&self, private_key_pem: &Vec<u8>) -> (r: Result<String, FluffError>)
        ensures
            r matches Ok(tok) ==> is_rsa_private_pem(private_key_pem@) && tok@
                == spec_signed_token(self@, private_key_pem@),
            r matches Err(e) ==> {
                &&& e.http_code == 500
                &&& e.can_retry
                &&& (e.error_name@ == "PrivateKeyError"@ <==> !is_rsa_private_pem(
                    private_key_pem@,
                ))
                &&& (e.error_name@ == "PrivateKeyError"@ || e.error_name@
                    == "JWTEncodingFailed"@)
            },
    {
        let payload = claims_json(self);
        let header = header_json();
        let mut msg = b64url_encode(header.as_bytes());
        push_char(&mut msg, '.');
        let payload_b64 = b64url_encode(payload.as_str().as_bytes());
        msg.append(payload_b64.as_str());
        proof {
            assert(msg@ =~= spec_signing_input(self@));
        }
        match rs512_sign(private_key_pem.as_slice(), msg.as_str()) {
            Ok(sig) => {
                let mut tok = msg;
                push_char(&mut tok, '.');
                tok.append(sig.as_str());
                proof {
                    assert(tok@ =~= spec_signed_token(self@, private_key_pem@));
                }
                Ok(tok)
            },
            Err(SignFailure::BadKey) => {
                let e = FluffError::new_u16(
                    500,
                    "PrivateKeyError",
                    "Private key is malformatted",
                    true,
                );
                proof {
                    reveal_strlit("PrivateKeyError");
                    reveal_strlit("JWTEncodingFailed");
                    assert("PrivateKeyError"@.len() == 15);
                    assert("JWTEncodingFailed"@.len() == 17);
                }
                Err(e)
            },
            Err(SignFailure::SigningFailed) => {
                let e = FluffError::new_u16(
                    500,
                    "JWTEncodingFailed",
                    "Unable to encode JWT",
                    true,
                );
                proof {
                    reveal_strlit("PrivateKeyError");
                    reveal_strlit("JWTEncodingFailed");
                    assert("PrivateKeyError"@.len() == 15);
                    assert("JWTEncodingFailed"@.len() == 17);
                }
                Err(e)
            },
        }
    }

    /// Validates a compact token under a public key at an explicit time.
    /// When the key bytes are not a well-formed RSA public key the failure
    /// says so; every other failure — a malformed token, a wrong header, a
    /// bad signature, a non-canonical payload, a missing claim, a policy
    /// violation — is the one opaque decoding failure.
    pub fn verify_at(token: &str, public_key_pem: &Vec<u8>, now_sec: u64) -> (r: Result<
        UserJWT,
        FluffError,
    >)
        ensures
            !is_rsa_public_pem(public_key_pem@) ==> r is Err,
            r matches Err(e) ==> {
                &&& e.http_code == 500
                &&& e.can_retry
                &&& (e.error_name@ == "PublicKeyError"@ || e.error_name@
                    == "JWTDecodingFailed"@)
                &&& (e.error_name@ == "PublicKeyError"@ ==> !is_rsa_public_pem(
                    public_key_pem@,
                ))
            },
            is_rsa_public_pem(public_key_pem@) ==> match r {
                Ok(c) => spec_validate_token(token@, public_key_pem@, now_sec) == Some(c@),
                Err(_) => spec_validate_token(token@, public_key_pem@, now_sec) is None,
            },
    {
        proof {
            reveal_strlit("PublicKeyError");
            reveal_strlit("JWTDecodingFailed");
            assert("PublicKeyError"@.len() == 14);
            assert("JWTDecodingFailed"@.len() == 17);
        }
        let n = token.unicode_len();
        let i = match find_dot(token, 0, n) {
            Some(i) => i,
            None => {
                return Err(jwt_decoding_failed());
            },
        };
        let j = match find_dot(token, i + 1, n) {
            Some(j) => j,
            None => {
                return Err(jwt_decoding_failed());
            },
        };
        match find_dot(token, j + 1, n) {
            Some(_) => {
                return Err(jwt_decoding_failed());
            },
            None => {},
        };
        let ghost tv = token@;
        proof {
            assert(tv.take(i as int) =~= tv.subrange(0, i as int));
        }
        // The signature must verify over everything before the second dot.
        let msg = token.substring_char(0, j);
        let sig = token.substring_char(j + 1, n);
        proof {
            assert(msg@ =~= tv.take(j as int));
            assert(sig@ =~= tv.skip(j as int + 1));
        }
        let sig_ok = match rs512_verify(public_key_pem.as_slice(), msg, sig) {
            Ok(b) => b,
            Err(_) => {
                return Err(
                    FluffError::new_u16(500, "PublicKeyError", "Public key is malformatted", true),
                );
            },
        };
        // The header segment must decode to the one accepted header.
        let header_bytes = match b64url_decode(token, 0, i) {
            Some(v) => v,
            None => {
                return Err(jwt_decoding_failed());
            },
        };
        if !bytes_eq(header_json().as_bytes(), &header_bytes) {
            proof {
                assert(spec_b64url_decode(tv.take(i as int)) != Some(
                    encode_utf8(spec_header_json()),
                ));
            }
            return Err(jwt_decoding_failed());
        }
        if !sig_ok {
            return Err(jwt_decoding_failed());
        }
        // The payload segment must decode to UTF-8 text that reads back as a
        // complete canonical claim set.
        let payload_bytes = match b64url_decode(token, i + 1, j) {
            Some(v) => v,
            None => {
                return Err(jwt_decoding_failed());
            },
        };
        let payload_text = match string_from_utf8(payload_bytes) {
            Some(s) => s,
            None => {
                return Err(jwt_decoding_failed());
            },
        };
        let claims = match parse_claims(payload_text.as_str()) {
            Some(c) => c,
            None => {
                return Err(jwt_decoding_failed());
            },
        };
        // The policy: fixed issuer, fixed audience, and the current time
        // within the leeway-extended validity window.
        if !str_eq(claims.iss.as_str(), crate::claims::issuer()) {
            return Err(jwt_decoding_failed());
        }
        if !contains_audience(&claims.aud) {
            return Err(jwt_decoding_failed());
        }
        let nbf_ok = claims.nbf <= now_sec || claims.nbf - now_sec <= LEEWAY_SECONDS;
        let exp_ok = claims.exp >= now_sec || now_sec - claims.exp <= LEEWAY_SECONDS;
        if !nbf_ok || !exp_ok {
            return Err(jwt_decoding_failed());
        }
        proof {
            assert(spec_claims_policy_ok(claims@, now_sec));
        }
        Ok(claims)
    }
}

/// Issues a signed session token for a user: the claim set is built at the
/// current wall-clock time and signed under the private key.
pub fn issue_token(user: &crate::user::User, private_key_pem: &Vec<u8>) -> (r: Result<
    String,
    FluffError,
>)
    ensures
        r matches Ok(tok) ==> is_rsa_private_pem(private_key_pem@) && (exists|now: u64|
            {
                &&& LEEWAY_SECONDS <= now
                &&& now + crate::claims::VALIDITY_SECONDS <= u64::MAX
                &&& tok@ == spec_signed_token(
                    crate::claims::spec_claims_for(user@, now),
                    private_key_pem@,
                )
            }),
        r matches Err(e) ==> e.http_code == 500 && e.can_retry,
{
    match UserJWT::generate_for_user(user) {
        Err(e) => Err(e),
        Ok(claims) => {
            let ghost now = claims.iat;
            match claims.sign(private_key_pem) {
                Ok(tok) => {
                    proof {
                        assert({
                            &&& LEEWAY_SECONDS <= now
                            &&& now + crate::claims::VALIDITY_SECONDS <= u64::MAX
                            &&& tok@ == spec_signed_token(
                                crate::claims::spec_claims_for(user@, now),
                                private_key_pem@,
                            )
                        });
                    }
                    Ok(tok)
                },
                Err(e) => Err(e),
            }
        },
    }
}

/// Validates an incoming token under the public key at the current
/// wall-clock time.
pub fn validate_token(token: &str, public_key_pem: &Vec<u8>) -> (r: Result<UserJWT, FluffError>)
    ensures
        r matches Ok(c) ==> is_rsa_public_pem(public_key_pem@) && (exists|now: u64|
            spec_validate_token(token@, public_key_pem@, now) == Some(c@)),
        r matches Err(e) ==> e.http_code == 500 && e.can_retry,
{
    match crate::claims::now_unix_seconds() {
        Some(now) => {
            let r = UserJWT::verify_at(token, public_key_pem, now);
            proof {
                if r is Ok {
                    assert(spec_validate_token(token@, public_key_pem@, now) == Some(
                        r->Ok_0@,
                    ));
                }
            }
            r
        },
        None => Err(
            FluffError::new_u16(
                500,
                "ClockFail",
                "Current system time is unavailable or unusable",
                true,
            ),
        ),
    }
}

// ---------------------------------------------------------------------------
// Laws.
// ---------------------------------------------------------------------------

proof fn lemma_find_dot_none(s: Seq<char>, from: int)
    requires
        0 <= from <= s.len(),
        forall|q: int| from <= q < s.len() ==> s[q] != '.',
    ensures
        spec_find_dot(s, from) is None,
    decreases s.len() - from,
{
    if from < s.len() {
        lemma_find_dot_none(s, from + 1);
    }
}

proof fn lemma_find_dot_at(s: Seq<char>, from: int, k: int)
    requires
        0 <= from <= k < s.len(),
        s[k] == '.',
        forall|q: int| from <= q < k ==> s[q] != '.',
    ensures
        spec_find_dot(s, from) == Some(k),
    decreases k - from,
{
    if from < k {
        lemma_find_dot_at(s, from + 1, k);
    }
}

/// Validating a token issued from any claim set succeeds and yields exactly
/// that claim set, at any check time within the policy window, provided the
/// two keys form a matching pair — stated as: the signature the private key
/// produces over this signing input verifies under the public key, and is
/// base64 text as the signer returns it.
pub proof fn lemma_sign_verify_round_trip(
    c: ClaimsView,
    priv_pem: Seq<u8>,
    pub_pem: Seq<u8>,
    now: u64,
)
    requires
        rs512_verifies(
            pub_pem,
            spec_signing_input(c),
            rs512_signature(priv_pem, spec_signing_input(c)),
        ),
        forall|k: int|
            0 <= k < rs512_signature(priv_pem, spec_signing_input(c)).len() ==> is_b64_char(
                #[trigger] rs512_signature(priv_pem, spec_signing_input(c))[k],
            ),
        spec_claims_policy_ok(c, now),
    ensures
        spec_validate_token(spec_signed_token(c, priv_pem), pub_pem, now) == Some(c),
{
    let hb = encode_utf8(spec_header_json());
    let pb = encode_utf8(crate::json::spec_claims_json(c));
    let h64 = spec_b64url(hb);
    let p64 = spec_b64url(pb);
    let msg = spec_signing_input(c);
    let sig = rs512_signature(priv_pem, msg);
    let tok = spec_signed_token(c, priv_pem);
    crate::b64url::lemma_b64url_charset(hb);
    crate::b64url::lemma_b64url_charset(pb);
    assert(!is_b64_char('.'));
    let i = h64.len() as int;
    let j = msg.len() as int;
    assert(tok.len() == msg.len() + 1 + sig.len());
    assert(tok[i] == '.') by {
        assert(msg[i] == '.');
        assert(tok[i] == msg[i]);
    }
    assert(tok[j] == '.');
    assert forall|q: int| 0 <= q < i implies tok[q] != '.' by {
        assert(tok[q] == h64[q]);
        assert(is_b64_char(h64[q]));
    }
    lemma_find_dot_at(tok, 0, i);
    assert forall|q: int| i + 1 <= q < j implies tok[q] != '.' by {
        assert(tok[q] == msg[q]);
        assert(msg[q] == p64[q - i - 1]);
        assert(is_b64_char(p64[q - i - 1]));
    }
    lemma_find_dot_at(tok, i + 1, j);
    assert forall|q: int| j + 1 <= q < tok.len() implies tok[q] != '.' by {
        assert(tok[q] == sig[q - j - 1]);
        assert(is_b64_char(sig[q - j - 1]));
    }
    lemma_find_dot_none(tok, j + 1);
    assert(spec_split3(tok) == Some((i, j)));
    assert(tok.take(i) =~= h64);
    assert(tok.subrange(i + 1, j) =~= p64);
    assert(tok.skip(j + 1) =~= sig);
    assert(tok.take(j) =~= msg);
    crate::b64url::lemma_b64url_round_trip(hb);
    crate::b64url::lemma_b64url_round_trip(pb);
    vstd::utf8::encode_utf8_valid_utf8(crate::json::spec_claims_json(c));
    vstd::utf8::encode_utf8_decode_utf8(crate::json::spec_claims_json(c));
    crate::json::lemma_claims_round_trip(c);
}

/// A freshly built claim set passes the validation policy at its own
/// issuance time.
pub proof fn lemma_fresh_claims_pass_policy(u: crate::user::UserView, now: u64)
    requires
        LEEWAY_SECONDS <= now,
        now + crate::claims::VALIDITY_SECONDS <= u64::MAX,
    ensures
        spec_claims_policy_ok(crate::claims::spec_claims_for(u, now), now),
{
    assert(seq![spec_audience()].contains(spec_audience())) by {
        assert(seq![spec_audience()][0] == spec_audience());
    }
}

/// For every user identity and matching key pair, validating a token issued
/// for that user at some time succeeds at that time and yields a claim set
/// whose subject, scope, name and display name are the user's own fields.
/// The key-pair hypotheses say what only the keys decide: the signature the
/// private key produces over this signing input verifies under the public
/// key, and is base64 text as the signer returns it.
pub proof fn lemma_issue_validate_round_trip(
    u: crate::user::UserView,
    now: u64,
    priv_pem: Seq<u8>,
    pub_pem: Seq<u8>,
)
    requires
        LEEWAY_SECONDS <= now,
        now + crate::claims::VALIDITY_SECONDS <= u64::MAX,
        rs512_verifies(
            pub_pem,
            spec_signing_input(crate::claims::spec_claims_for(u, now)),
            rs512_signature(
                priv_pem,
                spec_signing_input(crate::claims::spec_claims_for(u, now)),
            ),
        ),
        forall|k: int|
            0 <= k < rs512_signature(
                priv_pem,
                spec_signing_input(crate::claims::spec_claims_for(u, now)),
            ).len() ==> is_b64_char(
                #[trigger] rs512_signature(
                    priv_pem,
                    spec_signing_input(crate::claims::spec_claims_for(u, now)),
                )[k],
            ),
    ensures
        ({
            let c = crate::claims::spec_claims_for(u, now);
            &&& spec_validate_token(spec_signed_token(c, priv_pem), pub_pem, now) == Some(c)
            &&& c.sub == u.id
            &&& c.scope == u.permissions
            &&& c.name == u.username
            &&& c.display_name == u.display_name
        }),
{
    let c = crate::claims::spec_claims_for(u, now);
    lemma_fresh_claims_pass_policy(u, now);
    lemma_sign_verify_round_trip(c, priv_pem, pub_pem, now);
}

/// The expiry check at the leeway boundary: an expiry one second before
/// now minus the leeway fails the policy; one second after it, with the
/// other policy conditions met, passes.
pub proof fn lemma_expiry_leeway_boundary(c: ClaimsView, now: u64)
    requires
        now >= LEEWAY_SECONDS + 1,
    ensures
        c.exp == now - LEEWAY_SECONDS - 1 ==> !spec_claims_policy_ok(c, now),
        (c.exp == now - LEEWAY_SECONDS + 1 && c.iss == spec_issuer() && c.aud.contains(
            spec_audience(),
        ) && c.nbf <= now + LEEWAY_SECONDS) ==> spec_claims_policy_ok(c, now),
{
}

} // verus!

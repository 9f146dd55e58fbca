//! The claim set: the authorization state of one issued session, and its
//! construction rule from a user identity and a clock reading.

use vstd::prelude::*;
use crate::errors::FluffError;
use crate::user::{User, UserView};

verus! {

/// How far a token's validity window is backdated at issuance, in seconds,
/// to absorb clock skew; also the leeway granted when checking time claims.
pub const LEEWAY_SECONDS: u64 = 300;

/// How long a token stays valid after issuance, in seconds (7 days).
pub const VALIDITY_SECONDS: u64 = 604800;

pub open spec fn spec_issuer() -> Seq<char> {
    "https://auth.fluffevent.fr"@
}

/// The fixed string identifying the signing authority.
pub fn issuer() -> (r: &'static str)
    ensures
        r@ == spec_issuer(),
{
    "https://auth.fluffevent.fr"
}

pub open spec fn spec_audience() -> Seq<char> {
    "fluffevent.fr"@
}

/// The single intended recipient of every issued token.
pub fn audience() -> (r: &'static str)
    ensures
        r@ == spec_audience(),
{
    "fluffevent.fr"
}

/// One issued session's claims. Immutable after construction; it exists only
/// embedded inside a signed token or as the output of verifying one.
#[derive(Debug)]
pub struct UserJWT {
    pub iss: String,
    pub sub: String,
    pub aud: Vec<String>,
    pub nbf: u64,
    pub exp: u64,
    pub iat: u64,
    pub name: String,
    pub display_name: String,
    pub picture: String,
    pub scope: Vec<String>,
}

/// The mathematical shape of a claim set.
#[verifier::ext_equal]
pub ghost struct ClaimsView {
    pub iss: Seq<char>,
    pub sub: Seq<char>,
    pub aud: Seq<Seq<char>>,
    pub nbf: u64,
    pub exp: u64,
    pub iat: u64,
    pub name: Seq<char>,
    pub display_name: Seq<char>,
    pub picture: Seq<char>,
    pub scope: Seq<Seq<char>>,
}

impl View for UserJWT {
    type V = ClaimsView;

    open spec fn view(&self) -> ClaimsView {
        ClaimsView {
            iss: self.iss@,
            sub: self.sub@,
            aud: self.aud.deep_view(),
            nbf: self.nbf,
            exp: self.exp,
            iat: self.iat,
            name: self.name@,
            display_name: self.display_name@,
            picture: self.picture@,
            scope: self.scope.deep_view(),
        }
    }
}

/// The claim set issued to a user at a given clock reading: backdated
/// not-before, a fixed validity window, and the identity fields copied
/// verbatim (a missing profile picture becomes the empty string).
pub open spec fn spec_claims_for(u: UserView, now: u64) -> ClaimsView {
    ClaimsView {
        iss: spec_issuer(),
        sub: u.id,
        aud: seq![spec_audience()],
        nbf: (now - LEEWAY_SECONDS) as u64,
        exp: (now + VALIDITY_SECONDS) as u64,
        iat: now,
        name: u.username,
        display_name: u.display_name,
        picture: match u.profile_picture {
            Some(p) => p,
            None => Seq::empty(),
        },
        scope: u.permissions,
    }
}

/// External collaborator boundary: the wall clock as seconds since the
/// epoch. Relies on std::time::SystemTime::now and
/// duration_since(UNIX_EPOCH); yields nothing when the clock reads before
/// the epoch.
#[verifier::external_body]
pub(crate) fn now_unix_seconds() -> (r: Option<u64>) {
    std::time::SystemTime::now()
        .duration_since(std::time::UNIX_EPOCH)
        .ok()
        .map(|d| d.as_secs())
}

impl UserJWT {
    /// Builds the claim set for a user at an explicit clock reading.
    /// Deterministic given a fixed clock reading.
    pub fn generate_for_user_at(user: &User, now_sec: u64) -> (r: UserJWT)
        requires
            LEEWAY_SECONDS <= now_sec,
            now_sec + VALIDITY_SECONDS <= u64::MAX,
        ensures
            r@ == spec_claims_for(user@, now_sec),
    {
        let mut aud: Vec<String> = Vec::new();
        aud.push(audience().to_owned());
        let scope = user.permissions.clone();
        let picture = match &user.profile_picture {
            Some(p) => p.clone(),
            None => String::new(),
        };
        let r = UserJWT {
            iss: issuer().to_owned(),
            sub: user.id.clone(),
            aud,
            nbf: now_sec - LEEWAY_SECONDS,
            exp: now_sec + VALIDITY_SECONDS,
            iat: now_sec,
            name: user.username.clone(),
            display_name: user.display_name.clone(),
            picture,
            scope,
        };
        proof {
            assert(scope.deep_view() =~= user.permissions.deep_view());
            assert(r.aud.deep_view() =~= seq![spec_audience()]);
            assert(r@ =~~= spec_claims_for(user@, now_sec));
        }
        r
    }

    /// Builds the claim set for a user at the current wall-clock time. Fails
    /// only when the clock cannot produce a usable time since the epoch, a
    /// transient environment fault, so the failure is flagged retryable.
    pub fn generate_for_user(user: &User) -> (r: Result<UserJWT, FluffError>)
        ensures
            r matches Ok(c) ==> {
                &&& LEEWAY_SECONDS <= c.iat
                &&& c.iat + VALIDITY_SECONDS <= u64::MAX
                &&& c@ == spec_claims_for(user@, c.iat)
            },
            r matches Err(e) ==> {
                &&& e.error_name@ == "ClockFail"@
                &&& e.http_code == 500
                &&& e.can_retry
            },
    {
        match now_unix_seconds() {
            Some(now) if LEEWAY_SECONDS <= now && now <= u64::MAX - VALIDITY_SECONDS => {
                Ok(Self::generate_for_user_at(user, now))
            },
            _ => Err(
                FluffError::new_u16(
                    500,
                    "ClockFail",
                    "Current system time is unavailable or unusable",
                    true,
                ),
            ),
        }
    }
}

/// Every claim set built for a user has its not-before exactly the leeway
/// before its issuance time, and its expiry exactly the validity window
/// after it.
pub proof fn lemma_claim_window(u: UserView, now: u64)
    requires
        LEEWAY_SECONDS <= now,
        now + VALIDITY_SECONDS <= u64::MAX,
    ensures
        spec_claims_for(u, now).nbf == spec_claims_for(u, now).iat - LEEWAY_SECONDS,
        spec_claims_for(u, now).exp == spec_claims_for(u, now).iat + VALIDITY_SECONDS,
        spec_claims_for(u, now).nbf <= spec_claims_for(u, now).iat <= spec_claims_for(u, now).exp,
{
}

} // verus!

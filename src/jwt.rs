//! Session tokens: issuing and validating HS256-signed claims, and reading
//! the bearer token out of an authorization header.

use vstd::prelude::*;

use crate::error::ApiError;

verus! {

/// The claims read from a token whose signature checked out; a field is `None`
/// when the token lacks it or holds it with another type.
pub ghost struct ClaimFields {
    pub sub: Option<Seq<char>>,
    pub name: Option<Seq<char>>,
    pub exp: Option<u64>,
}

/// What decoding `token` with the HS256 key made from `secret` yields: the claim
/// fields, or the error that rejects the token.
pub uninterp spec fn hs256_decoded(token: Seq<char>, secret: Seq<char>) -> Result<
    ClaimFields,
    ApiError,
>;

#[verifier::external_type_specification]
#[verifier::external_body]
pub struct ExJwtError(jsonwebtoken::errors::Error);

/// Claim fields as read from a token, before they are checked.
pub struct RawClaims {
    pub sub: Option<String>,
    pub name: Option<String>,
    pub exp: Option<u64>,
}

impl View for RawClaims {
    type V = ClaimFields;

    open spec fn view(&self) -> ClaimFields {
        ClaimFields {
            sub: match self.sub {
                Some(s) => Some(s@),
                None => None,
            },
            name: match self.name {
                Some(s) => Some(s@),
                None => None,
            },
            exp: self.exp,
        }
    }
}

/// Relies on jsonwebtoken::encode with the default header (HS256) and an HMAC key
/// made from `secret`: the key's family matches the header's algorithm and a map
/// of strings and an integer always serialises, so it succeeds; the token it signs
/// decodes, under the same secret, to the claims it was given.
#[verifier::external_body]
fn encode_hs256(sub: &str, name: &str, exp: u64, secret: &str) -> (r: Result<String, jsonwebtoken::errors::Error>)
    ensures
        r is Ok,
        r matches Ok(t) ==> issued(t@, sub@, name@, secret@, exp) && is_compact_token(t@),
{
    let mut claims = serde_json::Map::new();
    claims.insert("sub".to_string(), sub.into());
    claims.insert("name".to_string(), name.into());
    claims.insert("exp".to_string(), exp.into());
    let key = jsonwebtoken::EncodingKey::from_secret(secret.as_bytes());
    jsonwebtoken::encode(&jsonwebtoken::Header::default(), &claims, &key)
}

/// Relies on jsonwebtoken::decode with HS256 and an HMAC key made from `secret`,
/// its expiry check switched off: the signature is checked before the claims are
/// read, and `ErrorKind::InvalidSignature` is its signature mismatch. A token
/// with fewer than two dots fails its split into three parts, and one with more
/// leaves a dot in the header part, which base64url refuses; both before any
/// signature check.
#[verifier::external_body]
fn decode_hs256(token: &str, secret: &str) -> (r: Result<RawClaims, ApiError>)
    ensures
        hs256_decoded(token@, secret@) == match r {
            Ok(c) => Ok(c@),
            Err(e) => Err(e),
        },
        r matches Err(e) ==> e == ApiError::UnableToDecodeClaims || e
            == ApiError::InvalidJWTSignature,
        r is Ok || r->Err_0 == ApiError::InvalidJWTSignature ==> dot_count(token@) == 2,
{
    let mut rules = jsonwebtoken::Validation::new(jsonwebtoken::Algorithm::HS256);
    rules.validate_exp = false;
    rules.required_spec_claims.clear();
    let key = jsonwebtoken::DecodingKey::from_secret(secret.as_bytes());
    match jsonwebtoken::decode::<serde_json::Value>(token, &key, &rules) {
        Ok(d) => Ok(RawClaims {
            sub: d.claims["sub"].as_str().map(String::from),
            name: d.claims["name"].as_str().map(String::from),
            exp: d.claims["exp"].as_u64(),
        }),
        Err(e) if *e.kind() == jsonwebtoken::errors::ErrorKind::InvalidSignature => Err(
            ApiError::InvalidJWTSignature,
        ),
        Err(_) => Err(ApiError::UnableToDecodeClaims),
    }
}

/// Relies on chrono::Utc::now: the current time in whole seconds since the Unix epoch.
#[verifier::external_body]
pub(crate) fn now_unix() -> i64 {
    chrono::Utc::now().timestamp()
}

/// The validated claims of a session token.
pub ghost struct ClaimsView {
    pub sub: Seq<char>,
    pub name: Seq<char>,
    pub exp: u64,
}

/// The claims of a session token: the subject's identifier, its display name and
/// the expiry in seconds since the Unix epoch.
#[derive(Debug, Clone)]
pub struct Claims {
    pub sub: String,
    pub name: String,
    exp: u64,
}

impl View for Claims {
    type V = ClaimsView;

    closed spec fn view(&self) -> ClaimsView {
        ClaimsView { sub: self.sub@, name: self.name@, exp: self.exp }
    }
}

impl Claims {
    /// The expiry, in seconds since the Unix epoch.
    pub fn exp(&self) -> (r: u64)
        ensures
            r == self@.exp,
    {
        self.exp
    }

    /// The subject's display name.
    pub fn name(&self) -> (r: &str)
        ensures
            r@ == self@.name,
    {
        self.name.as_str()
    }

    /// The subject's identifier.
    pub fn sub(&self) -> (r: &str)
        ensures
            r@ == self@.sub,
    {
        self.sub.as_str()
    }
}

/// The expiry of a token issued at `now` for `ttl` seconds, when it lies strictly
/// after `now` and fits the timestamp range.
pub open spec fn expiry_of(now: int, ttl: int) -> Option<u64> {
    if ttl > 0 && 0 <= now + ttl <= u64::MAX {
        Some((now + ttl) as u64)
    } else {
        None
    }
}

/// How many dots `s` holds.
pub open spec fn dot_count(s: Seq<char>) -> nat {
    s.filter(|c: char| c == '.').len()
}

/// A character of the compact token encoding: base64url digits and the dots
/// between the parts.
pub open spec fn is_token_char(c: char) -> bool {
    ('a' <= c <= 'z') || ('A' <= c <= 'Z') || ('0' <= c <= '9') || c == '-' || c == '_' || c == '.'
}

/// A non-empty string of token characters.
pub open spec fn is_compact_token(t: Seq<char>) -> bool {
    t.len() > 0 && forall|i: int| 0 <= i < t.len() ==> is_token_char(#[trigger] t[i])
}

/// `token` is a token for the given claims, signed with `secret`.
pub open spec fn issued(
    token: Seq<char>,
    sub: Seq<char>,
    name: Seq<char>,
    secret: Seq<char>,
    exp: u64,
) -> bool {
    hs256_decoded(token, secret) == Ok::<ClaimFields, ApiError>(
        ClaimFields { sub: Some(sub), name: Some(name), exp: Some(exp) },
    )
}

/// What validating `token` under `secret` at time `now` yields: the signature is
/// checked first, then that every claim is present, then the expiry.
pub open spec fn validation(token: Seq<char>, secret: Seq<char>, now: int) -> Result<
    ClaimsView,
    ApiError,
> {
    match hs256_decoded(token, secret) {
        Err(e) => Err(e),
        Ok(f) => if f.sub is Some && f.name is Some && f.exp is Some {
            if now < f.exp->0 {
                Ok(ClaimsView { sub: f.sub->0, name: f.name->0, exp: f.exp->0 })
            } else {
                Err(ApiError::ExpiredJWTs)
            }
        } else {
            Err(ApiError::UnableToDecodeClaims)
        },
    }
}

/// A token issued at `issued_at` for `ttl` seconds validates under the same
/// secret, to the claims it was issued with, at every time before
/// `issued_at + ttl`, and is rejected as expired from then on.
pub proof fn lemma_token_round_trip(
    token: Seq<char>,
    sub: Seq<char>,
    name: Seq<char>,
    secret: Seq<char>,
    issued_at: int,
    ttl: int,
    now: int,
)
    requires
        expiry_of(issued_at, ttl) is Some,
        issued(token, sub, name, secret, expiry_of(issued_at, ttl)->0),
    ensures
        now < issued_at + ttl ==> validation(token, secret, now) == Ok::<ClaimsView, ApiError>(
            ClaimsView { sub, name, exp: (issued_at + ttl) as u64 },
        ),
        now >= issued_at + ttl ==> validation(token, secret, now) == Err::<ClaimsView, ApiError>(
            ApiError::ExpiredJWTs,
        ),
{
}

/// A token refused at some time is refused at every later time: expiry only
/// moves one way, and every other reason does not depend on the time.
pub proof fn lemma_refusal_lasts(token: Seq<char>, secret: Seq<char>, now: int, later: int)
    requires
        validation(token, secret, now) is Err,
        now <= later,
    ensures
        validation(token, secret, later) is Err,
{
}

/// Issues a token for `uid` and `name`, signed with `hmac_secret`, that expires
/// `ttl` seconds after `now`.
pub fn create_jwt_at(uid: &str, name: &str, hmac_secret: &str, ttl: u64, now: i64) -> (r: Result<String, ApiError>)
    ensures
        expiry_of(now as int, ttl as int) is None <==> r == Err::<String, ApiError>(
            ApiError::WrongTimeStamp,
        ),
        expiry_of(now as int, ttl as int) is Some ==> r is Ok,
        r matches Ok(t) ==> issued(t@, uid@, name@, hmac_secret@, expiry_of(now as int, ttl as int)->0)
            && is_compact_token(t@),
{
    let sum: i128 = now as i128 + ttl as i128;
    if ttl == 0 || sum < 0 || sum > u64::MAX as i128 {
        return Err(ApiError::WrongTimeStamp);
    }
    let exp = sum as u64;
    match encode_hs256(uid, name, exp, hmac_secret) {
        Ok(t) => Ok(t),
        Err(_) => Err(ApiError::InvalidJWTCredentials),
    }
}

/// Issues a token for `uid` and `name`, signed with `hmac_secret`, that expires
/// `ttl` seconds from now.
pub fn create_jwt(uid: &str, name: &str, hmac_secret: &str, ttl: u64) -> (r: Result<String, ApiError>)
    ensures
        match r {
            Ok(t) => hs256_decoded(t@, hmac_secret@) matches Ok(f) && f.sub == Some(uid@)
                && f.name == Some(name@) && f.exp is Some,
            Err(e) => e == ApiError::WrongTimeStamp,
        },
        ttl == 0 ==> r == Err::<String, ApiError>(ApiError::WrongTimeStamp),
{
    let now = now_unix();
    create_jwt_at(uid, name, hmac_secret, ttl, now)
}

/// Validates `jwt` under `hmac_secret` at time `now` and returns its claims.
pub fn handle_jwt_token_at(jwt: &str, hmac_secret: &str, now: i64) -> (r: Result<Claims, ApiError>)
    ensures
        validation(jwt@, hmac_secret@, now as int) == match r {
            Ok(c) => Ok(c@),
            Err(e) => Err(e),
        },
        r matches Err(e) ==> e == ApiError::UnableToDecodeClaims || e == ApiError::InvalidJWTSignature
            || e == ApiError::ExpiredJWTs,
        dot_count(jwt@) != 2 ==> r == Err::<Claims, ApiError>(ApiError::UnableToDecodeClaims),
{
    match decode_hs256(jwt, hmac_secret) {
        Err(e) => Err(e),
        Ok(raw) => match (raw.sub, raw.name, raw.exp) {
            (Some(sub), Some(name), Some(exp)) => {
                if (now as i128) < (exp as i128) {
                    Ok(Claims { sub, name, exp })
                } else {
                    Err(ApiError::ExpiredJWTs)
                }
            },
            _ => Err(ApiError::UnableToDecodeClaims),
        },
    }
}

/// Validates `jwt` under `hmac_secret` against the current time and returns its
/// claims.
pub fn handle_jwt_token(jwt: &str, hmac_secret: &str) -> (r: Result<Claims, ApiError>)
    ensures
        match r {
            Ok(c) => hs256_decoded(jwt@, hmac_secret@) == Ok::<ClaimFields, ApiError>(
                ClaimFields { sub: Some(c@.sub), name: Some(c@.name), exp: Some(c@.exp) },
            ),
            Err(e) => (hs256_decoded(jwt@, hmac_secret@) matches Err(d) ==> e == d) && (e
                == ApiError::UnableToDecodeClaims || e == ApiError::InvalidJWTSignature || e
                == ApiError::ExpiredJWTs),
        },
        hs256_decoded(jwt@, hmac_secret@) matches Ok(f) && !(f.sub is Some && f.name is Some
            && f.exp is Some) ==> r == Err::<Claims, ApiError>(ApiError::UnableToDecodeClaims),
        dot_count(jwt@) != 2 ==> r == Err::<Claims, ApiError>(ApiError::UnableToDecodeClaims),
{
    let now = now_unix();
    handle_jwt_token_at(jwt, hmac_secret, now)
}

/// A visible ASCII character: neither whitespace, nor a control character, nor
/// outside ASCII.
pub open spec fn is_visible_ascii(c: char) -> bool {
    '!' <= c <= '~'
}

/// The scheme of a bearer header and the single space after it.
pub open spec fn bearer_prefix() -> Seq<char> {
    seq!['B', 'e', 'a', 'r', 'e', 'r', ' ']
}

/// The token of a header of the exact form `Bearer <token>`: the scheme, one
/// space, then a non-empty token of visible ASCII characters. Split on
/// whitespace, such a header gives exactly two parts; any other header,
/// including one with characters outside visible ASCII, has no token.
pub open spec fn bearer_token_of(h: Seq<char>) -> Option<Seq<char>> {
    if h.len() > 7 && h.subrange(0, 7) == bearer_prefix() && (forall|i: int|
        7 <= i < h.len() ==> is_visible_ascii(#[trigger] h[i])) {
        Some(h.subrange(7, h.len() as int))
    } else {
        None
    }
}

/// Extracts the token from an authorization header of the form `Bearer <token>`.
pub fn extract_header_value(header: &str) -> (r: Result<&str, ApiError>)
    ensures
        match bearer_token_of(header@) {
            Some(t) => r matches Ok(s) && s@ == t,
            None => r == Err::<&str, ApiError>(ApiError::InvalidJWTFormat),
        },
{
    let len = header.unicode_len();
    if len <= 7 {
        return Err(ApiError::InvalidJWTFormat);
    }
    let prefix = ['B', 'e', 'a', 'r', 'e', 'r', ' '];
    let mut ok = true;
    let mut n: usize = 0;
    for c in it: header.chars()
        invariant
            n == it.index(),
            len == header@.len(),
            it.seq() == header@,
            prefix@ == bearer_prefix(),
            ok <==> (forall|j: int|
                0 <= j < n ==> if j < 7 {
                    header@[j] == bearer_prefix()[j]
                } else {
                    is_visible_ascii(header@[j])
                }),
    {
        let good = if n < 7 {
            c == prefix[n]
        } else {
            '!' <= c && c <= '~'
        };
        ok = ok && good;
        n = n + 1;
    }
    if !ok {
        assert(!(header@.subrange(0, 7) == bearer_prefix() && (forall|i: int|
            7 <= i < header@.len() ==> is_visible_ascii(#[trigger] header@[i])))) by {
            let j = choose|j: int|
                0 <= j < n && !(if j < 7 {
                    header@[j] == bearer_prefix()[j]
                } else {
                    is_visible_ascii(header@[j])
                });
            if j < 7 {
                assert(header@.subrange(0, 7)[j] == header@[j]);
            }
        }
        return Err(ApiError::InvalidJWTFormat);
    }
    assert(header@.subrange(0, 7) =~= bearer_prefix());
    Ok(header.substring_char(7, len))
}

} // verus!

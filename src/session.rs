//! Sign-up, login, authorization and logout, over one snapshot of the store
//! and over the shared, lock-guarded state.

use vstd::prelude::*;

use crate::db::{has_email, has_id_text, insertion, texts, InMemDatabase};
use crate::error::ApiError;
use crate::jwt::{
    bearer_prefix, bearer_token_of, expiry_of, extract_header_value, handle_jwt_token,
    handle_jwt_token_at, hs256_decoded, is_compact_token, is_token_char, is_visible_ascii, issued,
    lemma_refusal_lasts, now_unix, validation, Claims, ClaimFields, ClaimsView,
};
use crate::schemas::{
    credential_check, hyphenated, max_password_chars, LoggedUser, LoginBody, NewUser, PasswordCheck,
    UserDbSchema, UserView, argon2_verdict,
};
use crate::state::AppState;

verus! {

/// What authorizing `header` yields at time `now` against a store holding
/// `recs` and the revoked set `revoked`. The checks run in this order: header
/// shape, revocation, signature and claims, expiry, then that the subject is a
/// stored user.
pub open spec fn authorization(
    recs: Seq<UserView>,
    revoked: Set<Seq<char>>,
    header: Seq<char>,
    secret: Seq<char>,
    now: int,
) -> Result<ClaimsView, ApiError> {
    match bearer_token_of(header) {
        None => Err(ApiError::InvalidJWTFormat),
        Some(t) => if revoked.contains(t) {
            Err(ApiError::TokenBlacklisted)
        } else {
            match validation(t, secret, now) {
                Err(e) => Err(e),
                Ok(c) => if has_id_text(recs, c.sub) {
                    Ok(c)
                } else {
                    Err(ApiError::SubjectNotFound)
                },
            }
        },
    }
}

/// The record stored under `email`, when there is one.
pub open spec fn user_with_email(recs: Seq<UserView>, email: Seq<char>) -> UserView
    recommends
        has_email(recs, email),
{
    recs[choose|i: int| 0 <= i < recs.len() && (#[trigger] recs[i]).email == email]
}

/// After a token is revoked, every header that carries it is refused with
/// `TokenBlacklisted`, however valid the token is otherwise.
pub proof fn lemma_revoked_token_rejected(
    recs: Seq<UserView>,
    revoked: Set<Seq<char>>,
    header: Seq<char>,
    secret: Seq<char>,
    now: int,
)
    requires
        bearer_token_of(header) is Some,
    ensures
        authorization(recs, revoked.insert(bearer_token_of(header)->0), header, secret, now)
            == Err::<ClaimsView, ApiError>(ApiError::TokenBlacklisted),
{
}

/// The header that carries `token`.
pub open spec fn bearer_header(token: Seq<char>) -> Seq<char> {
    bearer_prefix() + token
}

/// A token that login issued for a stored user authorizes that user, with the
/// user's identifier as subject, as long as it is neither expired nor revoked.
pub proof fn lemma_login_then_authorize(
    recs: Seq<UserView>,
    revoked: Set<Seq<char>>,
    user: UserView,
    token: Seq<char>,
    secret: Seq<char>,
    exp: u64,
    now: int,
)
    requires
        recs.contains(user),
        issued(token, hyphenated(user.id), user.first_name, secret, exp),
        is_compact_token(token),
        !revoked.contains(token),
        now < exp,
    ensures
        authorization(recs, revoked, bearer_header(token), secret, now) == Ok::<ClaimsView, ApiError>(
            ClaimsView { sub: hyphenated(user.id), name: user.first_name, exp },
        ),
{
    let h = bearer_header(token);
    assert(h.subrange(0, 7) =~= bearer_prefix());
    assert(h.subrange(7, h.len() as int) =~= token);
    assert forall|i: int| 7 <= i < h.len() implies is_visible_ascii(#[trigger] h[i]) by {
        assert(h[i] == token[i - 7]);
        assert(is_token_char(token[i - 7]));
    }
    assert(bearer_token_of(h) == Some(token));
    let k = choose|k: int| 0 <= k < recs.len() && recs[k] == user;
    assert(hyphenated(recs[k].id) == hyphenated(user.id));
}

/// Authorizes a request against one snapshot of the store: the token of a
/// `Bearer <token>` header must be unrevoked, signed with `hmac_secret`,
/// unexpired at `now`, and name a stored user.
pub fn authorize_in(db: &InMemDatabase, header: &str, hmac_secret: &str, now: i64) -> (r: Result<Claims, ApiError>)
    requires
        db.wf(),
    ensures
        authorization(db.records(), db.revoked(), header@, hmac_secret@, now as int) == match r {
            Ok(c) => Ok(c@),
            Err(e) => Err(e),
        },
{
    let token = match extract_header_value(header) {
        Ok(t) => t,
        Err(e) => return Err(e),
    };
    if let Err(e) = db.check_token_black_listed(token) {
        return Err(e);
    }
    let claims = match handle_jwt_token_at(token, hmac_secret, now) {
        Ok(c) => c,
        Err(e) => return Err(e),
    };
    match db.assert_user_exists(claims.sub()) {
        Ok(()) => Ok(claims),
        Err(e) => Err(e),
    }
}

/// Logs in against one snapshot of the store: finds the user by email, checks
/// the password and issues a token valid for `ttl` seconds after `now`.
pub fn login_in(db: &InMemDatabase, body: &LoginBody, hmac_secret: &str, ttl: u64, now: i64) -> (r: Result<LoggedUser, ApiError>)
    requires
        db.wf(),
    ensures
        !has_email(db.records(), body.email@) ==> r == Err::<LoggedUser, ApiError>(ApiError::NonExistence),
        has_email(db.records(), body.email@) ==> {
            let u = user_with_email(db.records(), body.email@);
            &&& credential_check(body.password@, u.encrypted_password) matches Err(e) ==> r == Err::<LoggedUser, ApiError>(e)
            &&& credential_check(body.password@, u.encrypted_password) is Ok ==> {
                &&& (expiry_of(now as int, ttl as int) is None <==> r == Err::<LoggedUser, ApiError>(ApiError::WrongTimeStamp))
                &&& (expiry_of(now as int, ttl as int) is Some <==> r is Ok)
                &&& (r matches Ok(l) ==> issued(l.token_view(), hyphenated(u.id), u.first_name, hmac_secret@, expiry_of(now as int, ttl as int)->0)
                        && is_compact_token(l.token_view()))
            }
        },
{
    let user = match db.get_user_by_email(body.email.as_str()) {
        Ok(u) => u,
        Err(e) => return Err(e),
    };
    proof {
        let recs = db.records();
        db.lemma_keys_distinct();
        let i = choose|i: int| 0 <= i < recs.len() && recs[i] == user@;
        assert(recs[i].email == body.email@);
        let j = choose|j: int| 0 <= j < recs.len() && (#[trigger] recs[j]).email == body.email@;
        assert(i == j);
    }
    user.verify_password_at(body.password.as_str(), hmac_secret, ttl, now)
}

/// Revokes the token of a `Bearer <token>` header in one snapshot of the store.
pub fn logout_in(db: &mut InMemDatabase, header: &str) -> (r: Result<(), ApiError>)
    requires
        old(db).wf(),
    ensures
        final(db).wf(),
        final(db).records() == old(db).records(),
        match bearer_token_of(header@) {
            Some(t) => r == Ok::<(), ApiError>(()) && final(db).revoked() == old(db).revoked().insert(t),
            None => r == Err::<(), ApiError>(ApiError::InvalidJWTFormat) && final(db).revoked() == old(db).revoked(),
        },
{
    match extract_header_value(header) {
        Ok(t) => {
            db.insert_black_list(t.to_owned());
            Ok(())
        },
        Err(e) => Err(e),
    }
}

/// Signs a user up in one snapshot of the store: a taken email is refused
/// before any hashing; otherwise the password is hashed with a fresh salt and
/// the record, under a fresh identifier, is stored with the store's
/// check-and-insert.
pub fn signup_in(db: &mut InMemDatabase, new_user: NewUser) -> (r: Result<(), ApiError>)
    requires
        old(db).wf(),
    ensures
        final(db).wf(),
        final(db).revoked() == old(db).revoked(),
        has_email(old(db).records(), new_user.email@) ==> r == Err::<(), ApiError>(ApiError::AlreadyExist),
        r is Err ==> final(db).records() == old(db).records(),
        r is Ok ==> has_email(final(db).records(), new_user.email@),
        !has_email(old(db).records(), new_user.email@) && new_user.password@.len() <= max_password_chars()
            ==> (r is Ok || (r == Err::<(), ApiError>(ApiError::AlreadyExist) && old(db).records().len() > 0)),
        r matches Err(e) ==> e == ApiError::AlreadyExist || e == ApiError::FailedHashingPassword,
        r is Ok ==> exists|u: UserView| {
            &&& #[trigger] insertion(old(db).records(), u) == Ok::<Seq<UserView>, ApiError>(final(db).records())
            &&& u.email == new_user.email@
            &&& u.first_name == new_user.first_name@
            &&& u.last_name == new_user.last_name@
            &&& argon2_verdict(new_user.password@, u.encrypted_password) == PasswordCheck::Match
        },
{
    if db.get_user_by_email(new_user.email.as_str()).is_ok() {
        return Err(ApiError::AlreadyExist);
    }
    let mut user = UserDbSchema::from_new_user(new_user);
    let stored = match user.encrypt_password() {
        Ok(u) => u,
        Err(e) => return Err(e),
    };
    let ghost v = stored@;
    let r = db.insert_user(stored);
    proof {
        if r is Ok {
            assert(insertion(old(db).records(), v) == Ok::<Seq<UserView>, ApiError>(db.records()));
            assert(db.records()[old(db).records().len() as int] == v);
        }
    }
    r
}

/// Signs a user up: the password is hashed with a fresh salt and the record
/// gets a fresh identifier before the store's lock is taken; the lock is held
/// only for the check-and-insert.
pub fn signup(new_user: NewUser, data: &AppState) -> (r: Result<(), ApiError>)
    ensures
        r matches Err(e) ==> e == ApiError::AlreadyExist || e == ApiError::FailedHashingPassword,
{
    let mut user = UserDbSchema::from_new_user(new_user);
    let stored = match user.encrypt_password() {
        Ok(u) => u,
        Err(e) => return Err(e),
    };
    let (mut db, handle) = data.db.acquire_write();
    let r = db.insert_user(stored);
    handle.release_write(db);
    r
}

/// Logs a user in: the record is read under the lock, the password is checked
/// and the token issued outside it.
pub fn login(body: LoginBody, data: &AppState) -> (r: Result<LoggedUser, ApiError>)
    ensures
        r matches Ok(l) ==> exists|u: UserView, exp: u64|
            u.email == body.email@ && argon2_verdict(body.password@, u.encrypted_password)
                == PasswordCheck::Match && #[trigger] issued(l.token_view(), hyphenated(u.id), u.first_name, data.hmac_secret@, exp),
        r matches Err(e) ==> e == ApiError::NonExistence || e == ApiError::InvalidCredentials
            || e == ApiError::InvalidPasswordHash || e == ApiError::FailedHashingPassword
            || e == ApiError::WrongTimeStamp,
{
    let handle = data.db.acquire_read();
    let found = handle.borrow().get_user_by_email(body.email.as_str());
    handle.release_read();
    match found {
        Ok(user) => {
            let r = user.verify_password(body.password.as_str(), data.hmac_secret.as_str(), data.token_ttl);
            proof {
                if r is Ok {
                    let l = r->Ok_0;
                    let exp = choose|exp: u64| issued(l.token_view(), hyphenated(user.id), user.first_name@, data.hmac_secret@, exp);
                    assert(issued(l.token_view(), hyphenated(user@.id), user@.first_name, data.hmac_secret@, exp));
                }
            }
            r
        },
        Err(e) => Err(e),
    }
}

/// Adds `token` to the revoked set.
pub fn black_list_user_jwt(token: &str, data: &AppState) -> (r: Result<(), ApiError>)
    ensures
        r is Ok,
{
    let (mut db, handle) = data.db.acquire_write();
    db.insert_black_list(token.to_owned());
    handle.release_write(db);
    Ok(())
}

/// Logs out: revokes the token of a `Bearer <token>` header. A token that is
/// already revoked, or that would not validate, is revoked all the same.
pub fn logout(header: &str, data: &AppState) -> (r: Result<(), ApiError>)
    ensures
        bearer_token_of(header@) is Some <==> r is Ok,
        r matches Err(e) ==> e == ApiError::InvalidJWTFormat,
{
    match extract_header_value(header) {
        Ok(t) => black_list_user_jwt(t, data),
        Err(e) => Err(e),
    }
}

/// Authorizes a request: header shape, then revocation (under the lock), then
/// signature and expiry (outside it), then that the subject is still stored
/// (under the lock again).
pub fn authorize(header: &str, data: &AppState) -> (r: Result<Claims, ApiError>)
    ensures
        bearer_token_of(header@) is None <==> r == Err::<Claims, ApiError>(ApiError::InvalidJWTFormat),
        r matches Err(e) ==> e == ApiError::InvalidJWTFormat || e == ApiError::TokenBlacklisted
            || e == ApiError::UnableToDecodeClaims || e == ApiError::InvalidJWTSignature
            || e == ApiError::ExpiredJWTs || e == ApiError::SubjectNotFound,
        r matches Ok(c) ==> hs256_decoded(bearer_token_of(header@)->0, data.hmac_secret@)
            == Ok::<ClaimFields, ApiError>(ClaimFields { sub: Some(c@.sub), name: Some(c@.name), exp: Some(c@.exp) }),
{
    let token = match extract_header_value(header) {
        Ok(t) => t,
        Err(e) => return Err(e),
    };
    let handle = data.db.acquire_read();
    let revoked = handle.borrow().check_token_black_listed(token);
    handle.release_read();
    if let Err(e) = revoked {
        return Err(e);
    }
    let claims = match handle_jwt_token(token, data.hmac_secret.as_str()) {
        Ok(c) => c,
        Err(e) => return Err(e),
    };
    let handle = data.db.acquire_read();
    let exists = handle.borrow().assert_user_exists(claims.sub());
    handle.release_read();
    match exists {
        Ok(()) => Ok(claims),
        Err(e) => Err(e),
    }
}

/// Pruning the revoked set at `now`, keeping only the tokens that still
/// validate then, never lets a revoked token through: at `now` and at every
/// later time its header is refused all the same.
pub proof fn lemma_pruning_keeps_refusals(
    recs: Seq<UserView>,
    revoked: Set<Seq<char>>,
    pruned: Set<Seq<char>>,
    header: Seq<char>,
    secret: Seq<char>,
    now: int,
    later: int,
)
    requires
        forall|t: Seq<char>| #[trigger] pruned.contains(t) <==> revoked.contains(t)
            && validation(t, secret, now) is Ok,
        bearer_token_of(header) matches Some(t) && revoked.contains(t),
        now <= later,
    ensures
        authorization(recs, pruned, header, secret, later) is Err,
{
    let t = bearer_token_of(header)->0;
    if !pruned.contains(t) {
        lemma_refusal_lasts(t, secret, now, later);
    }
}

/// The tokens of `tokens` that do not validate under `hmac_secret` at `now`.
pub fn lapsed_tokens(tokens: &Vec<String>, hmac_secret: &str, now: i64) -> (r: Vec<String>)
    ensures
        forall|t: Seq<char>| #[trigger] texts(r@).contains(t) <==> texts(tokens@).contains(t)
            && validation(t, hmac_secret@, now as int) is Err,
{
    let mut out: Vec<String> = Vec::new();
    let n = tokens.len();
    for i in 0..n
        invariant
            n == tokens@.len(),
            forall|k: int| 0 <= k < out@.len() ==> texts(tokens@).contains(#[trigger] texts(out@)[k])
                && validation(texts(out@)[k], hmac_secret@, now as int) is Err,
            forall|j: int| 0 <= j < i && validation(#[trigger] texts(tokens@)[j], hmac_secret@, now as int) is Err
                ==> texts(out@).contains(texts(tokens@)[j]),
    {
        let t = &tokens[i];
        assert(texts(tokens@)[i as int] == t@);
        if handle_jwt_token_at(t.as_str(), hmac_secret, now).is_err() {
            let c = t.clone();
            let ghost prev = texts(out@);
            out.push(c);
            assert(texts(out@) =~= prev.push(t@));
            assert(texts(out@)[prev.len() as int] == t@);
            assert forall|j: int| 0 <= j < i + 1 && validation(#[trigger] texts(tokens@)[j], hmac_secret@, now as int) is Err
                implies texts(out@).contains(texts(tokens@)[j]) by {
                if j < i {
                    let k = choose|k: int| 0 <= k < prev.len() && prev[k] == texts(tokens@)[j];
                    assert(texts(out@)[k] == texts(tokens@)[j]);
                }
            }
        }
    }
    assert forall|t: Seq<char>| #[trigger] texts(out@).contains(t) implies texts(tokens@).contains(t)
        && validation(t, hmac_secret@, now as int) is Err by {
        let k = choose|k: int| 0 <= k < out@.len() && texts(out@)[k] == t;
    }
    assert forall|t: Seq<char>| texts(tokens@).contains(t) && validation(t, hmac_secret@, now as int) is Err
        implies #[trigger] texts(out@).contains(t) by {
        let j = choose|j: int| 0 <= j < tokens@.len() && texts(tokens@)[j] == t;
    }
    out
}

/// Prunes the revoked set of one snapshot of the store: a token that no
/// longer validates at `now` (expired, or never signed with `hmac_secret`)
/// can never be accepted again, so it need not be kept.
pub fn prune_black_list_in(db: &mut InMemDatabase, hmac_secret: &str, now: i64)
    requires
        old(db).wf(),
    ensures
        final(db).wf(),
        final(db).records() == old(db).records(),
        forall|t: Seq<char>| #[trigger] final(db).revoked().contains(t) <==> old(db).revoked().contains(t)
            && validation(t, hmac_secret@, now as int) is Ok,
{
    let listed = db.revoked_tokens();
    let lapsed = lapsed_tokens(&listed, hmac_secret, now);
    db.forget_black_listed(&lapsed);
    assert forall|t: Seq<char>| #[trigger] db.revoked().contains(t) <==> old(db).revoked().contains(t)
        && validation(t, hmac_secret@, now as int) is Ok by {
        assert(texts(listed@).to_set().contains(t) == texts(listed@).contains(t));
        assert(texts(lapsed@).contains(t) <==> texts(listed@).contains(t)
            && validation(t, hmac_secret@, now as int) is Err);
    }
}

/// Prunes the revoked set: the tokens are read under the lock, checked
/// outside it, and the lapsed ones removed under the lock again.
pub fn prune_black_list(data: &AppState) {
    let now = now_unix();
    let handle = data.db.acquire_read();
    let listed = handle.borrow().revoked_tokens();
    handle.release_read();
    let lapsed = lapsed_tokens(&listed, data.hmac_secret.as_str(), now);
    let (mut db, handle) = data.db.acquire_write();
    db.forget_black_listed(&lapsed);
    handle.release_write(db);
}

} // verus!

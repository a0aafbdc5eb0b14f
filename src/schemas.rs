//! User records, sign-up and login requests, salted password hashing and
//! user identifiers.

use argon2::PasswordHasher;
use argon2::PasswordVerifier;
use vstd::arithmetic::power2::pow2;
use vstd::bits::lemma_u128_shr_is_div;
use vstd::prelude::*;

use crate::error::ApiError;
use crate::jwt::{create_jwt_at, expiry_of, is_compact_token, issued, now_unix};

verus! {

/// How a password fares against a stored, encoded hash.
#[derive(Debug, Clone, Copy, PartialEq, Eq, Structural)]
pub enum PasswordCheck {
    /// The password hashes to the stored digest.
    Match,
    /// The stored hash is well formed but the password does not produce it.
    Mismatch,
    /// The stored string is not an encoded password hash.
    BadHash,
    /// The hash could not be recomputed (unsupported or invalid parameters).
    Failure,
}

/// What argon2 decides when `password` is checked against the encoded hash `encoded`.
pub uninterp spec fn argon2_verdict(password: Seq<char>, encoded: Seq<char>) -> PasswordCheck;

/// The lower-case hexadecimal digit for a value below 16.
pub open spec fn hex_digit(d: int) -> char {
    seq!['0', '1', '2', '3', '4', '5', '6', '7', '8', '9', 'a', 'b', 'c', 'd', 'e', 'f'][d]
}

/// Which hexadecimal digit, counted from the most significant, stands at index
/// `i` of the hyphenated form.
pub open spec fn digit_index(i: int) -> int {
    if i < 8 {
        i
    } else if i < 13 {
        i - 1
    } else if i < 18 {
        i - 2
    } else if i < 23 {
        i - 3
    } else {
        i - 4
    }
}

/// The hyphenated text form of an identifier: its 32 lower-case hexadecimal
/// digits, most significant first, in groups of 8, 4, 4, 4 and 12 joined by '-'.
pub open spec fn hyphenated(id: u128) -> Seq<char> {
    Seq::new(
        36,
        |i: int|
            if i == 8 || i == 13 || i == 18 || i == 23 {
                '-'
            } else {
                hex_digit((id as int / pow2((4 * (31 - digit_index(i))) as nat) as int) % 16)
            },
    )
}

/// The start of every hash this library stores: argon2id, version 0x13.
pub open spec fn argon2id_prefix() -> Seq<char> {
    seq!['$', 'a', 'r', 'g', 'o', 'n', '2', 'i', 'd', '$', 'v', '=', '1', '9', '$']
}

/// `s` begins with `prefix`.
pub open spec fn starts_with(s: Seq<char>, prefix: Seq<char>) -> bool {
    prefix.len() <= s.len() && s.subrange(0, prefix.len() as int) == prefix
}

/// The longest password, in characters, whose UTF-8 encoding surely stays within
/// argon2's limit of `0xFFFF_FFFF` bytes.
pub open spec fn max_password_chars() -> int {
    0x3FFF_FFFF
}

/// A random identifier as RFC 4122 lays out version 4: the version field holds 4
/// and the variant bits are `10`.
pub open spec fn is_v4_id(id: u128) -> bool {
    (id >> 76u128) & 0xFu128 == 4 && (id >> 62u128) & 0x3u128 == 2
}

/// The identifier spelled by a text, if it spells one.
pub uninterp spec fn uuid_parsed(text: Seq<char>) -> Option<u128>;

#[verifier::external_type_specification]
#[verifier::external_body]
pub struct ExPasswordHashError(argon2::password_hash::Error);

/// Relies on password_hash::SaltString::generate fed by rand::thread_rng, which
/// draws a new 16-byte random salt on every call, then on argon2's
/// PasswordHasher::hash_password with the default parameters (argon2id, version
/// 0x13) and on PasswordHash's Display: the PHC string names the algorithm,
/// version, parameters and salt, so checking the same password against it
/// succeeds. With such a salt it fails only on a password longer than
/// `MAX_PWD_LEN` bytes.
#[verifier::external_body]
fn argon2_hash(password: &str) -> (r: Result<String, argon2::password_hash::Error>)
    ensures
        password@.len() <= max_password_chars() ==> r is Ok,
        r matches Ok(h) ==> argon2_verdict(password@, h@) == PasswordCheck::Match,
        r matches Ok(h) ==> starts_with(h@, argon2id_prefix()),
{
    let salt = argon2::password_hash::SaltString::generate(&mut rand::thread_rng());
    argon2::Argon2::default().hash_password(password.as_bytes(), &salt).map(|h| h.to_string())
}

/// Relies on argon2::PasswordHash::new, which parses the encoded hash, and on
/// argon2's PasswordVerifier::verify_password, which recomputes the digest with
/// the parameters and salt found there; `Error::Password` is its mismatch.
#[verifier::external_body]
fn argon2_check(password: &str, encoded: &str) -> (r: PasswordCheck)
    ensures
        r == argon2_verdict(password@, encoded@),
{
    match argon2::PasswordHash::new(encoded) {
        Err(_) => PasswordCheck::BadHash,
        Ok(h) => match argon2::Argon2::default().verify_password(password.as_bytes(), &h) {
            Ok(()) => PasswordCheck::Match,
            Err(argon2::password_hash::Error::Password) => PasswordCheck::Mismatch,
            Err(_) => PasswordCheck::Failure,
        },
    }
}

/// Relies on uuid::Uuid::new_v4: a random identifier whose version and variant
/// bits it sets to version 4, RFC 4122.
#[verifier::external_body]
fn fresh_uuid() -> (r: u128)
    ensures
        is_v4_id(r),
{
    uuid::Uuid::new_v4().as_u128()
}

/// Relies on String::push: appends one character.
#[verifier::external_body]
fn push_char(s: &mut String, c: char)
    ensures
        final(s)@ == old(s)@.push(c),
{
    s.push(c)
}

/// The lower-case hexadecimal digit for `d`.
fn hex_char(d: u128) -> (c: char)
    requires
        d < 16,
    ensures
        c == hex_digit(d as int),
{
    let table = ['0', '1', '2', '3', '4', '5', '6', '7', '8', '9', 'a', 'b', 'c', 'd', 'e', 'f'];
    assert(table@ =~= seq!['0', '1', '2', '3', '4', '5', '6', '7', '8', '9', 'a', 'b', 'c', 'd', 'e', 'f']);
    table[d as usize]
}

/// Writes an identifier in its hyphenated text form, the form uuid's Display
/// gives it.
pub(crate) fn id_to_text(id: u128) -> (r: String)
    ensures
        r@ == hyphenated(id),
{
    let mut out = String::new();
    let mut i: usize = 0;
    while i < 36
        invariant
            i <= 36,
            out@ == hyphenated(id).subrange(0, i as int),
        decreases 36 - i,
    {
        let c = if i == 8 || i == 13 || i == 18 || i == 23 {
            '-'
        } else {
            let k: u128 = if i < 8 {
                i as u128
            } else if i < 13 {
                (i - 1) as u128
            } else if i < 18 {
                (i - 2) as u128
            } else if i < 23 {
                (i - 3) as u128
            } else {
                (i - 4) as u128
            };
            assert(k as int == digit_index(i as int));
            let shift: u128 = 4 * (31 - k);
            proof {
                lemma_u128_shr_is_div(id, shift);
            }
            hex_char((id >> shift) % 16)
        };
        let ghost before = out@;
        push_char(&mut out, c);
        assert(out@ =~= hyphenated(id).subrange(0, i + 1)) by {
            assert(out@ == before.push(c));
        }
        i = i + 1;
    }
    assert(hyphenated(id).subrange(0, 36) =~= hyphenated(id));
    out
}

/// Relies on uuid::Uuid::parse_str: the identifier that the text spells, if any;
/// the hyphenated lower-case form of an identifier is one it reads.
#[verifier::external_body]
pub(crate) fn id_from_text(text: &str) -> (r: Option<u128>)
    ensures
        r == uuid_parsed(text@),
        forall|n: u128| text@ == #[trigger] hyphenated(n) ==> r == Some(n),
{
    uuid::Uuid::parse_str(text).ok().map(|u| u.as_u128())
}

/// What checking `password` against a stored hash decides, before any token is
/// issued.
pub open spec fn credential_check(password: Seq<char>, encoded: Seq<char>) -> Result<(), ApiError> {
    match argon2_verdict(password, encoded) {
        PasswordCheck::Match => Ok(()),
        PasswordCheck::Mismatch => Err(ApiError::InvalidCredentials),
        PasswordCheck::BadHash => Err(ApiError::InvalidPasswordHash),
        PasswordCheck::Failure => Err(ApiError::FailedHashingPassword),
    }
}

/// A password that was hashed into an encoded hash passes the credential check
/// against that hash.
pub proof fn lemma_password_round_trip(password: Seq<char>, encoded: Seq<char>)
    requires
        argon2_verdict(password, encoded) == PasswordCheck::Match,
    ensures
        credential_check(password, encoded) == Ok::<(), ApiError>(()),
{
}

/// A stored user, as the credential store sees it.
pub ghost struct UserView {
    pub id: u128,
    pub encrypted_password: Seq<char>,
    pub email: Seq<char>,
    pub first_name: Seq<char>,
    pub last_name: Seq<char>,
}

/// A user record of the credential store. Right after `with_id` the field
/// `encrypted_password` still holds the plain password; `encrypt_password`
/// replaces it by its hash, and the sign-up paths store a record only then.
#[derive(Debug, Clone)]
pub struct UserDbSchema {
    pub id: u128,
    pub encrypted_password: String,
    pub email: String,
    pub first_name: String,
    pub last_name: String,
}

impl View for UserDbSchema {
    type V = UserView;

    open spec fn view(&self) -> UserView {
        UserView {
            id: self.id,
            encrypted_password: self.encrypted_password@,
            email: self.email@,
            first_name: self.first_name@,
            last_name: self.last_name@,
        }
    }
}

/// A sign-up request.
#[derive(Debug, Clone)]
pub struct NewUser {
    pub email: String,
    pub password: String,
    pub first_name: String,
    pub last_name: String,
}

/// The result of a successful login: the session token.
#[derive(Debug, Clone)]
pub struct LoggedUser {
    token: String,
}

/// Login credentials.
#[derive(Debug, Clone)]
pub struct LoginBody {
    pub email: String,
    pub password: String,
}

impl LoggedUser {
    /// The characters of the token.
    pub closed spec fn token_view(&self) -> Seq<char> {
        self.token@
    }

    /// A login result carrying `token`.
    pub(crate) fn new(token: String) -> (r: Self)
        ensures
            r.token_view() == token@,
    {
        LoggedUser { token }
    }

    /// The signed session token.
    pub fn token(&self) -> (r: &str)
        ensures
            r@ == self.token_view(),
    {
        self.token.as_str()
    }
}

/// Copies a string, keeping its characters.
pub(crate) fn copy_text(s: &String) -> (r: String)
    ensures
        r@ == s@,
{
    s.clone()
}

impl UserDbSchema {
    /// A record for a sign-up request under the given identifier; the password
    /// is still plain and is hashed by `encrypt_password`.
    pub fn with_id(val: NewUser, id: u128) -> (r: Self)
        ensures
            r.id == id,
            r.encrypted_password@ == val.password@,
            r.email@ == val.email@,
            r.first_name@ == val.first_name@,
            r.last_name@ == val.last_name@,
    {
        UserDbSchema {
            id,
            encrypted_password: val.password,
            email: val.email,
            first_name: val.first_name,
            last_name: val.last_name,
        }
    }

    /// A record for a sign-up request under a freshly drawn random identifier.
    pub fn from_new_user(val: NewUser) -> (r: Self)
        ensures
            r.encrypted_password@ == val.password@,
            r.email@ == val.email@,
            r.first_name@ == val.first_name@,
            r.last_name@ == val.last_name@,
            is_v4_id(r.id),
    {
        let id = fresh_uuid();
        Self::with_id(val, id)
    }

    /// An equal copy of the record.
    pub fn duplicate(&self) -> (r: Self)
        ensures
            r@ == self@,
    {
        UserDbSchema {
            id: self.id,
            encrypted_password: copy_text(&self.encrypted_password),
            email: copy_text(&self.email),
            first_name: copy_text(&self.first_name),
            last_name: copy_text(&self.last_name),
        }
    }

    /// The user's email.
    pub fn get_email(&self) -> (r: &str)
        ensures
            r@ == self.email@,
    {
        self.email.as_str()
    }

    /// The identifier in its text form, as tokens carry it.
    pub fn id_text(&self) -> (r: String)
        ensures
            r@ == hyphenated(self.id),
    {
        id_to_text(self.id)
    }

    /// Checks `password` against the stored hash and, when it matches, issues a
    /// session token for this user, signed with `hmac_secret`, valid for `ttl`
    /// seconds after `now`.
    pub fn verify_password_at(&self, password: &str, hmac_secret: &str, ttl: u64, now: i64) -> (r: Result<LoggedUser, ApiError>)
        ensures
            credential_check(password@, self.encrypted_password@) matches Err(e) ==> r == Err::<LoggedUser, ApiError>(e),
            credential_check(password@, self.encrypted_password@) is Ok ==> {
                &&& (expiry_of(now as int, ttl as int) is None <==> r == Err::<LoggedUser, ApiError>(ApiError::WrongTimeStamp))
                &&& (expiry_of(now as int, ttl as int) is Some <==> r is Ok)
                &&& (r matches Ok(l) ==> issued(l.token_view(), hyphenated(self.id), self.first_name@, hmac_secret@, expiry_of(now as int, ttl as int)->0)
                        && is_compact_token(l.token_view()))
            },
    {
        match argon2_check(password, self.encrypted_password.as_str()) {
            PasswordCheck::Match => {},
            PasswordCheck::Mismatch => return Err(ApiError::InvalidCredentials),
            PasswordCheck::BadHash => return Err(ApiError::InvalidPasswordHash),
            PasswordCheck::Failure => return Err(ApiError::FailedHashingPassword),
        }
        let uid = self.id_text();
        match create_jwt_at(uid.as_str(), self.first_name.as_str(), hmac_secret, ttl, now) {
            Ok(token) => Ok(LoggedUser::new(token)),
            Err(e) => Err(e),
        }
    }

    /// Checks `password` against the stored hash and, when it matches, issues a
    /// session token for this user that expires `ttl` seconds from now.
    pub fn verify_password(&self, password: &str, hmac_secret: &str, ttl: u64) -> (r: Result<LoggedUser, ApiError>)
        ensures
            credential_check(password@, self.encrypted_password@) matches Err(e) ==> r == Err::<LoggedUser, ApiError>(e),
            r matches Ok(l) ==> credential_check(password@, self.encrypted_password@) is Ok
                && exists|exp: u64| issued(l.token_view(), hyphenated(self.id), self.first_name@, hmac_secret@, exp),
            credential_check(password@, self.encrypted_password@) is Ok ==> (r matches Err(e)
                ==> e == ApiError::WrongTimeStamp),
            credential_check(password@, self.encrypted_password@) is Ok && ttl == 0
                ==> r == Err::<LoggedUser, ApiError>(ApiError::WrongTimeStamp),
    {
        let now = now_unix();
        self.verify_password_at(password, hmac_secret, ttl, now)
    }

    /// Replaces the plain password held in `encrypted_password` by its salted
    /// hash (a new random salt each time), in argon2's self-describing PHC
    /// encoding, and returns a copy of the result. It succeeds on every password
    /// within argon2's length limit; on failure the record is left as it was.
    pub fn encrypt_password(&mut self) -> (r: Result<Self, ApiError>)
        ensures
            old(self).encrypted_password@.len() <= max_password_chars() ==> r is Ok,
            r matches Ok(u) ==> starts_with(u.encrypted_password@, argon2id_prefix()),
            !starts_with(old(self).encrypted_password@, argon2id_prefix()) ==> (r matches Ok(u)
                ==> u.encrypted_password@ != old(self).encrypted_password@),
            match r {
                Ok(u) => {
                    &&& u@ == final(self)@
                    &&& argon2_verdict(old(self).encrypted_password@, u.encrypted_password@)
                        == PasswordCheck::Match
                    &&& u.id == old(self).id
                    &&& u.email@ == old(self).email@
                    &&& u.first_name@ == old(self).first_name@
                    &&& u.last_name@ == old(self).last_name@
                },
                Err(e) => e == ApiError::FailedHashingPassword && *final(self) == *old(self),
            },
    {
        match argon2_hash(self.encrypted_password.as_str()) {
            Ok(h) => {
                self.encrypted_password = h;
                Ok(self.duplicate())
            },
            Err(_) => Err(ApiError::FailedHashingPassword),
        }
    }
}

} // verus!

//! Signing in: checking a password against the stored hash, and the claims
//! that a token carries.

use crate::error::Error;
use crate::models::{LoginRequest, User, UserInfo, UserInfoView, UserView};
use crate::schema::Database;
use crate::time::{timestamp_range, unix_now};
use crate::users::{find_user_by_id, find_user_by_username};
use vstd::prelude::*;

verus! {

/// How long a token is good for, in seconds: 24 hours.
pub const TOKEN_LIFETIME: i64 = 86_400;

/// What a token states: whom it stands for, and from when until when, in
/// seconds since the start of 1970 in UTC.
#[derive(Debug)]
pub struct Claims {
    /// The identity of the account.
    pub sub: String,
    pub username: String,
    /// When the token stops being good.
    pub exp: i64,
    /// When the token was issued.
    pub iat: i64,
}

/// The mathematical value of [`Claims`].
pub struct ClaimsView {
    pub sub: Seq<char>,
    pub username: Seq<char>,
    pub exp: i64,
    pub iat: i64,
}

impl View for Claims {
    type V = ClaimsView;

    open spec fn view(&self) -> ClaimsView {
        ClaimsView { sub: self.sub@, username: self.username@, exp: self.exp, iat: self.iat }
    }
}

impl Clone for Claims {
    fn clone(&self) -> (r: Self)
        ensures
            r@ == self@,
    {
        Claims {
            sub: self.sub.clone(),
            username: self.username.clone(),
            exp: self.exp,
            iat: self.iat,
        }
    }
}

/// The error type of the `bcrypt` crate.
#[verifier::external_type_specification]
#[verifier::external_body]
pub struct ExBcryptError(bcrypt::BcryptError);

/// What `bcrypt::verify` returns for a password and a stored hash:
/// `Some(true)` or `Some(false)` where it returns `Ok`, and `None` where it
/// returns an error, as it does for a text that is not a bcrypt hash.
pub uninterp spec fn bcrypt_verify(password: Seq<char>, hash: Seq<char>) -> Option<bool>;

/// Checks `password` against `hash` with `bcrypt::verify`.
///
/// Trusted: the result depends on the two texts alone (the salt and the
/// cost are part of the hash), which is all that the name
/// [`bcrypt_verify`] claims.
#[verifier::external_body]
pub(crate) fn verify_password(password: &str, hash: &str) -> (r: Result<bool, bcrypt::BcryptError>)
    ensures
        bcrypt_verify(password@, hash@) == match r {
            Ok(b) => Some(b),
            Err(_) => None,
        },
{
    bcrypt::verify(password, hash)
}

/// Hashes `password` with `bcrypt::hash` at `bcrypt::DEFAULT_COST`, under a
/// salt that the system's random source gives.
///
/// Trusted: which hash comes back is open, but every hash that comes back
/// is one that `bcrypt::verify` accepts for the same password. The source
/// shows it: the hash is written out with its salt and cost in the form
/// that `verify` splits again, and `verify` repeats the same computation on
/// the same password, salt and cost.
#[verifier::external_body]
pub(crate) fn hash_password(password: &str) -> (r: Result<String, bcrypt::BcryptError>)
    ensures
        r matches Ok(hash) ==> bcrypt_verify(password@, hash@) == Some(true),
{
    bcrypt::hash(password, bcrypt::DEFAULT_COST)
}

/// What an account shows of itself.
pub open spec fn info_of(user: UserView) -> UserInfoView {
    UserInfoView { id: user.id, username: user.username, created_at: user.created_at }
}

/// Computes [`info_of`].
pub fn user_info(user: &User) -> (info: UserInfo)
    ensures
        info@ == info_of(user@),
{
    UserInfo {
        id: user.id.clone(),
        username: user.username.clone(),
        created_at: user.created_at,
    }
}

/// The claims of a token for the account `user_id`, issued at `issued_at`
/// and good for [`TOKEN_LIFETIME`] seconds.
pub open spec fn claims_issued(user_id: Seq<char>, username: Seq<char>, issued_at: i64) -> ClaimsView {
    ClaimsView {
        sub: user_id,
        username,
        exp: (issued_at + TOKEN_LIFETIME) as i64,
        iat: issued_at,
    }
}

/// The claims of a token for the account `user_id`, issued at `issued_at`;
/// none when the time of expiry cannot be held in 64 bits.
pub fn issue_claims(user_id: &str, username: &str, issued_at: i64) -> (r: Option<Claims>)
    ensures
        match r {
            Some(claims) => issued_at + TOKEN_LIFETIME <= i64::MAX && claims@ == claims_issued(
                user_id@,
                username@,
                issued_at,
            ),
            None => issued_at + TOKEN_LIFETIME > i64::MAX,
        },
{
    match issued_at.checked_add(TOKEN_LIFETIME) {
        Some(exp) => Some(
            Claims { sub: user_id.to_owned(), username: username.to_owned(), exp, iat: issued_at },
        ),
        None => None,
    }
}

/// The claims of a token for the account `user_id`, issued now: always
/// there, for the account and the name given, issued at a time that the
/// clock can show and good for [`TOKEN_LIFETIME`] seconds from then.
pub fn generate_claims(user_id: &str, username: &str) -> (r: Option<Claims>)
    ensures
        r matches Some(claims) && claims@ == claims_issued(user_id@, username@, claims.iat)
            && timestamp_range(claims.iat as int) && claims.exp == claims.iat + TOKEN_LIFETIME,
{
    issue_claims(user_id, username, unix_now())
}

/// What a sign-in comes to once the account was found and the password
/// checked: the account's public face if the check said yes, and `Auth` if
/// it said no or could not be made.
pub fn finish_login(user: &User, checked: Result<bool, bcrypt::BcryptError>) -> (r: Result<UserInfo, Error>)
    ensures
        match r {
            Ok(info) => checked == Ok::<bool, bcrypt::BcryptError>(true) && info@ == info_of(user@),
            Err(e) => e == Error::Auth && checked != Ok::<bool, bcrypt::BcryptError>(true),
        },
{
    match checked {
        Ok(true) => Ok(user_info(user)),
        _ => Err(Error::Auth),
    }
}

/// Signs in: finds the live account with the name in `request` and checks
/// the password against its hash.
///
/// `NotFound` comes back when no live account has the name, `Auth` when the
/// password is not the account's.
pub fn login(db: &Database, request: &LoginRequest) -> (r: Result<UserInfo, Error>)
    ensures
        match db@.user_named(request.username@) {
            Some(user) => if bcrypt_verify(request.password@, user.password) == Some(true) {
                r matches Ok(info) && info@ == info_of(user)
            } else {
                r == Err::<UserInfo, Error>(Error::Auth)
            },
            None => r == Err::<UserInfo, Error>(Error::NotFound),
        },
{
    let user = match find_user_by_username(db, request.username.as_str()) {
        Some(user) => user,
        None => {
            return Err(Error::NotFound);
        },
    };
    let checked = verify_password(request.password.as_str(), user.password.as_str());
    finish_login(&user, checked)
}

/// The account that `claims` stand for, as a token that was found good
/// states them.
///
/// `NotFound` comes back when no live account has the identity.
pub fn get_current_user(db: &Database, claims: &Claims) -> (r: Result<UserInfo, Error>)
    ensures
        match r {
            Ok(info) => db@.user(claims@.sub) matches Some(user) && info@ == info_of(user),
            Err(e) => e == Error::NotFound && db@.user(claims@.sub) is None,
        },
{
    match find_user_by_id(db, claims.sub.as_str()) {
        Some(user) => Ok(user_info(&user)),
        None => Err(Error::NotFound),
    }
}

} // verus!

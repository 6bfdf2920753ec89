//! Token verification: from a signed token to the identity it vouches for.
//!
//! A token is a JSON Web Token signed with HMAC-SHA256 under a secret that
//! the relay shares with the issuer. Its claims give the time `exp` at
//! which it expires, in seconds since 1970, and under the key `user` they
//! describe the user: an `id`, a `username`, a `pbkdf2_salt` and a
//! `created_at` time, all texts. The identity is the user's `id`.
//!
//! Verification reads no clock: the caller says what time it is.

use vstd::prelude::*;
use jsonwebtoken::{Algorithm, DecodingKey, Validation};
use crate::identity::{identity_of_text, Identity};

verus! {

/// `jsonwebtoken::errors::Error`, carried through and never looked into.
#[verifier::external_type_specification]
#[verifier::external_body]
pub struct ExJwtError(jsonwebtoken::errors::Error);

/// Why a token yields no identity.
#[derive(Clone, Copy, Debug, PartialEq, Eq, Structural)]
pub enum TokenError {
    /// The token is malformed or wrongly signed, or gives no time of
    /// expiry.
    Rejected,
    /// The token has expired.
    Expired,
    /// A part of the user is missing from the claims, or is no text.
    IncompleteUser,
    /// The user's id is no identity.
    BadUserId,
    /// The user's creation time is no date and time.
    BadCreationTime,
}

/// For how many seconds past its expiry a token is still accepted.
pub const LEEWAY: u64 = 60;

/// The user as the claims describe it: each part, where the claims hold it
/// as a text.
#[derive(Clone, Debug, PartialEq, Eq)]
pub struct UserClaims {
    pub id: Option<String>,
    pub username: Option<String>,
    pub pbkdf2_salt: Option<String>,
    pub created_at: Option<String>,
}

pub struct UserClaimsView {
    pub id: Option<Seq<char>>,
    pub username: Option<Seq<char>>,
    pub pbkdf2_salt: Option<Seq<char>>,
    pub created_at: Option<Seq<char>>,
}

/// The characters of a text that may be missing.
pub open spec fn text_view(text: Option<String>) -> Option<Seq<char>> {
    match text {
        Some(text) => Some(text@),
        None => None,
    }
}

impl View for UserClaims {
    type V = UserClaimsView;

    open spec fn view(&self) -> UserClaimsView {
        UserClaimsView {
            id: text_view(self.id),
            username: text_view(self.username),
            pbkdf2_salt: text_view(self.pbkdf2_salt),
            created_at: text_view(self.created_at),
        }
    }
}

/// The claims, as JSON text, that `jsonwebtoken::decode` reads from a
/// token under an HS256 key made from the secret, when it is not asked to
/// look at the time; `None` where it refuses the token.
pub uninterp spec fn signed_claims(token: Seq<char>, secret: Seq<char>) -> Option<Seq<char>>;

/// The text that `serde_json` finds in a JSON text under the key `inner`
/// of the member `outer`, if the two exist and the value is a text.
pub uninterp spec fn json_text(json: Seq<char>, outer: Seq<char>, inner: Seq<char>) -> Option<
    Seq<char>,
>;

/// The number that `serde_json` finds in a JSON text under the key `key`,
/// if it is a whole number that fits in 64 bits.
pub uninterp spec fn json_number(json: Seq<char>, key: Seq<char>) -> Option<u64>;

/// Whether `chrono::NaiveDateTime` can be parsed from the text.
pub uninterp spec fn date_time_text(text: Seq<char>) -> bool;

/// Calls `jsonwebtoken::decode` with an HS256 key made from `secret` and
/// that algorithm's default validation, but for the check of the expiry
/// time, which is switched off; hands the claims back as JSON text. With
/// that check off the decoder reads no clock, so what it gives depends on
/// the token and the secret alone and is named by `signed_claims`.
#[verifier::external_body]
fn decode_claims(token: &str, secret: &str) -> (claims: Result<
    String,
    jsonwebtoken::errors::Error,
>)
    ensures
        match claims {
            Ok(json) => signed_claims(token@, secret@) == Some(json@),
            Err(_) => signed_claims(token@, secret@) is None,
        },
{
    let key = DecodingKey::from_secret(secret.as_bytes());
    let mut validation = Validation::new(Algorithm::HS256);
    validation.validate_exp = false;
    jsonwebtoken::decode::<serde_json::Value>(token, &key, &validation).map(
        |data| data.claims.to_string(),
    )
}

/// Calls `serde_json::from_str` and reads the member `outer`, its member
/// `inner`, and that value as a text (`Value::as_str`). The result
/// depends on the three texts alone and is named by `json_text`.
#[verifier::external_body]
fn json_text_at(json: &str, outer: &str, inner: &str) -> (text: Option<String>)
    ensures
        text_view(text) == json_text(json@, outer@, inner@),
{
    serde_json::from_str::<serde_json::Value>(json).ok().and_then(
        |value| value[outer][inner].as_str().map(String::from),
    )
}

/// Calls `serde_json::from_str` and reads the member `key` as a number
/// (`Value::as_u64`). The result depends on the two texts alone and is
/// named by `json_number`.
#[verifier::external_body]
fn json_number_at(json: &str, key: &str) -> (number: Option<u64>)
    ensures
        number == json_number(json@, key@),
{
    serde_json::from_str::<serde_json::Value>(json).ok().and_then(|value| value[key].as_u64())
}

/// Calls the `FromStr` parser of `chrono::NaiveDateTime` and says whether
/// it accepted the text. The parser reads nothing but its argument, so the
/// answer is named by `date_time_text`; nothing else is claimed of it.
#[verifier::external_body]
fn is_date_time(text: &str) -> (accepted: bool)
    ensures
        accepted == date_time_text(text@),
{
    text.parse::<chrono::NaiveDateTime>().is_ok()
}

/// Whether a token that expires at `exp` has expired at the time `now`,
/// both in seconds since 1970: it has once `now` is more than `LEEWAY`
/// seconds past `exp`.
pub open spec fn expired(exp: u64, now: u64) -> bool {
    exp + LEEWAY < now
}

/// Says whether a token that expires at `exp` has expired at `now`.
pub fn is_expired(exp: u64, now: u64) -> (yes: bool)
    ensures
        yes == expired(exp, now),
{
    now >= LEEWAY && exp < now - LEEWAY
}

/// The user that the claims describe.
pub open spec fn user_of(json: Seq<char>) -> UserClaimsView {
    UserClaimsView {
        id: json_text(json, "user"@, "id"@),
        username: json_text(json, "user"@, "username"@),
        pbkdf2_salt: json_text(json, "user"@, "pbkdf2_salt"@),
        created_at: json_text(json, "user"@, "created_at"@),
    }
}

/// Reads the user from the claims.
pub fn read_user(json: &str) -> (user: UserClaims)
    ensures
        user@ == user_of(json@),
{
    UserClaims {
        id: json_text_at(json, "user", "id"),
        username: json_text_at(json, "user", "username"),
        pbkdf2_salt: json_text_at(json, "user", "pbkdf2_salt"),
        created_at: json_text_at(json, "user", "created_at"),
    }
}

/// The identity that a user vouches for: its id, provided that the user
/// is complete and well formed.
pub open spec fn identity_of_user(user: UserClaimsView) -> Result<Identity, TokenError> {
    if user.id is None || user.username is None || user.pbkdf2_salt is None || user.created_at
        is None {
        Err(TokenError::IncompleteUser)
    } else {
        match identity_of_text(user.id->0) {
            None => Err(TokenError::BadUserId),
            Some(identity) => if date_time_text(user.created_at->0) {
                Ok(identity)
            } else {
                Err(TokenError::BadCreationTime)
            },
        }
    }
}

/// Reads the identity from the user that a token describes.
pub fn user_identity(user: &UserClaims) -> (identity: Result<Identity, TokenError>)
    ensures
        identity == identity_of_user(user@),
{
    if user.username.is_none() || user.pbkdf2_salt.is_none() {
        return Err(TokenError::IncompleteUser);
    }
    let (id, created_at) = match (&user.id, &user.created_at) {
        (Some(id), Some(created_at)) => (id, created_at),
        _ => {
            return Err(TokenError::IncompleteUser);
        },
    };
    match Identity::parse(id.as_str()) {
        None => Err(TokenError::BadUserId),
        Some(identity) => if is_date_time(created_at.as_str()) {
            Ok(identity)
        } else {
            Err(TokenError::BadCreationTime)
        },
    }
}

/// The verdict at the time `now` on claims read from a token, or on none:
/// without claims, or without a time of expiry in them, the token is
/// rejected; past that time it has expired; else it vouches for the
/// identity of its user.
pub open spec fn verdict_on(claims: Option<Seq<char>>, now: u64) -> Result<Identity, TokenError> {
    match claims {
        None => Err(TokenError::Rejected),
        Some(json) => match json_number(json, "exp"@) {
            None => Err(TokenError::Rejected),
            Some(exp) => if expired(exp, now) {
                Err(TokenError::Expired)
            } else {
                identity_of_user(user_of(json))
            },
        },
    }
}

/// The verdict at the time `now` on `token` under `secret`.
pub open spec fn token_verdict(token: Seq<char>, secret: Seq<char>, now: u64) -> Result<
    Identity,
    TokenError,
> {
    verdict_on(signed_claims(token, secret), now)
}

/// Gives the verdict at the time `now` on the claims of a token.
pub fn verdict(claims: Option<&str>, now: u64) -> (identity: Result<Identity, TokenError>)
    ensures
        identity == verdict_on(
            match claims {
                Some(json) => Some(json@),
                None => None,
            },
            now,
        ),
{
    let json = match claims {
        Some(json) => json,
        None => {
            return Err(TokenError::Rejected);
        },
    };
    match json_number_at(json, "exp") {
        None => Err(TokenError::Rejected),
        Some(exp) => if is_expired(exp, now) {
            Err(TokenError::Expired)
        } else {
            let user = read_user(json);
            user_identity(&user)
        },
    }
}

/// Verifies `token` against `secret` at the time `now`, in seconds since
/// 1970, and gives the identity it vouches for.
pub fn verify_token(token: &str, secret: &str, now: u64) -> (identity: Result<Identity, TokenError>)
    ensures
        identity == token_verdict(token@, secret@, now),
{
    match decode_claims(token, secret) {
        Ok(json) => verdict(Some(json.as_str()), now),
        Err(_) => verdict(None, now),
    }
}

} // verus!

//! Users and authentication shapes. The identity provider around this core
//! does the hashing, token signing and storage; here live the request
//! validation rules and the claim arithmetic it relies on.

use vstd::prelude::*;

use crate::names::is_blank;
use crate::names::spec_trim;
use vstd::utf8::encode_utf8;

verus! {

/// A user as the identity store keeps them.
#[derive(Debug, PartialEq)]
pub struct User {
    pub id: u64,
    pub username: String,
    pub full_name: String,
    pub email: String,
    pub password_hash: String,
    pub created_at: i64,
}

/// Public user response (excludes the password hash).
#[derive(Debug, PartialEq)]
pub struct UserResponse {
    pub id: u64,
    pub username: String,
    pub email: String,
    pub created_at: i64,
}

impl From<User> for UserResponse {
    fn from(u: User) -> (r: Self) {
        UserResponse { id: u.id, username: u.username, email: u.email, created_at: u.created_at }
    }
}

impl vstd::std_specs::convert::FromSpecImpl<User> for UserResponse {
    open spec fn obeys_from_spec() -> bool {
        true
    }

    open spec fn from_spec(u: User) -> Self {
        UserResponse { id: u.id, username: u.username, email: u.email, created_at: u.created_at }
    }
}

/// Registration request payload.
#[derive(Debug)]
pub struct RegisterRequest {
    pub username: String,
    pub full_name: String,
    pub email: String,
    pub password: String,
}

/// Login request payload.
#[derive(Debug)]
pub struct LoginRequest {
    pub email: String,
    pub password: String,
}

/// Auth response with the signed token.
#[derive(Debug, PartialEq)]
pub struct AuthResponse {
    pub token: String,
    pub user: UserResponse,
}

/// Why a registration request was turned away. The first failing rule, in
/// order, is reported.
#[derive(Clone, Copy, Debug, PartialEq, Eq, Structural)]
pub enum RegistrationError {
    /// The username is under 3 bytes.
    UsernameTooShort,
    /// The full name is empty or nothing but whitespace.
    FullNameRequired,
    /// The password is under 6 bytes.
    PasswordTooShort,
    /// The email carries no `@`.
    InvalidEmail,
}

/// The registration rules, in the order they are checked: a username of at
/// least 3 bytes, a non-blank full name, a password of at least 6 bytes, and
/// an email containing `@`.
pub open spec fn spec_validate_registration(
    username: Seq<char>,
    full_name: Seq<char>,
    email: Seq<char>,
    password: Seq<char>,
) -> Result<(), RegistrationError> {
    if encode_utf8(username).len() < 3 {
        Err(RegistrationError::UsernameTooShort)
    } else if spec_trim(full_name).len() == 0 {
        Err(RegistrationError::FullNameRequired)
    } else if encode_utf8(password).len() < 6 {
        Err(RegistrationError::PasswordTooShort)
    } else if !email.contains('@') {
        Err(RegistrationError::InvalidEmail)
    } else {
        Ok(())
    }
}

/// Does the string contain an `@` anywhere?
fn contains_at(s: &str) -> (found: bool)
    ensures
        found == s@.contains('@'),
{
    let n = s.unicode_len();
    let mut i: usize = 0;
    while i < n
        invariant
            0 <= i <= n,
            n == s@.len(),
            forall|k: int| 0 <= k < i ==> s@[k] != '@',
        decreases n - i,
    {
        if s.get_char(i) == '@' {
            return true;
        }
        i += 1;
    }
    false
}

/// Check a registration request. Acceptance and the reported first failure
/// are exactly what `spec_validate_registration` decides.
pub fn validate_registration(req: &RegisterRequest) -> (result: Result<(), RegistrationError>)
    ensures
        result == spec_validate_registration(
            req.username@,
            req.full_name@,
            req.email@,
            req.password@,
        ),
{
    broadcast use vstd::slice::group_slice_axioms;

    if req.username.as_str().as_bytes().len() < 3 {
        return Err(RegistrationError::UsernameTooShort);
    }
    if is_blank(req.full_name.as_str()) {
        return Err(RegistrationError::FullNameRequired);
    }
    if req.password.as_str().as_bytes().len() < 6 {
        return Err(RegistrationError::PasswordTooShort);
    }
    if !contains_at(req.email.as_str()) {
        return Err(RegistrationError::InvalidEmail);
    }
    Ok(())
}

/// How long a token lives, in seconds: 24 hours.
pub const TOKEN_LIFETIME_SECS: u64 = 86400;

/// JWT claims embedded in each token.
#[derive(Clone, Copy, Debug, PartialEq, Eq, Structural)]
pub struct Claims {
    /// Subject (user id).
    pub sub: u64,
    /// Expiration time (as UTC timestamp).
    pub exp: u64,
    /// Issued at (as UTC timestamp).
    pub iat: u64,
}

/// The claims a token for this user carries when issued at the given time:
/// it expires exactly one lifetime later.
pub fn token_claims(user_id: u64, issued_at: u64) -> (claims: Claims)
    requires
        issued_at + TOKEN_LIFETIME_SECS <= u64::MAX,
    ensures
        claims.sub == user_id,
        claims.iat == issued_at,
        claims.exp == issued_at + TOKEN_LIFETIME_SECS,
{
    Claims { sub: user_id, exp: issued_at + TOKEN_LIFETIME_SECS, iat: issued_at }
}

/// The token of an `Authorization: Bearer <token>` header value, if the
/// value is in that shape.
pub fn strip_bearer(header: &str) -> (token: Option<&str>)
    ensures
        token matches Some(t) ==> header@.len() >= 7 && header@.subrange(0, 7) == "Bearer "@
            && t@ == header@.skip(7),
        token is None ==> header@.len() < 7 || header@.subrange(0, 7) != "Bearer "@,
{
    proof {
        reveal_strlit("Bearer ");
    }
    let n = header.unicode_len();
    if n < 7 {
        return None;
    }
    let well_formed = header.get_char(0) == 'B' && header.get_char(1) == 'e' && header.get_char(2)
        == 'a' && header.get_char(3) == 'r' && header.get_char(4) == 'e' && header.get_char(5)
        == 'r' && header.get_char(6) == ' ';
    if !well_formed {
        proof {
            assert(header@.subrange(0, 7) != "Bearer "@) by {
                if header@.subrange(0, 7) == "Bearer "@ {
                    assert(header@[0] == "Bearer "@[0]);
                    assert(header@[1] == "Bearer "@[1]);
                    assert(header@[2] == "Bearer "@[2]);
                    assert(header@[3] == "Bearer "@[3]);
                    assert(header@[4] == "Bearer "@[4]);
                    assert(header@[5] == "Bearer "@[5]);
                    assert(header@[6] == "Bearer "@[6]);
                }
            }
        }
        return None;
    }
    proof {
        assert(header@.subrange(0, 7) =~= "Bearer "@);
    }
    Some(header.substring_char(7, n))
}

} // verus!

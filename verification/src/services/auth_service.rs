//! Sign-in state: the login request, and whether the stored session is still valid.
use vstd::prelude::*;
use crate::hooks::masks::only_digits;
use crate::number::{lemma_parse_unsigned_bounds, spec_u64_from_str, u64_from_str};
use crate::text::{digits_of, owned};
use crate::utils::config::opt_view;
use crate::services::api::{error_view, spec_storage_write_result, storage_write_result, ApiError, StorageWrite, LOGIN_REALIZADO_KEY};

verus! {

/// A token counts as expiring soon within five minutes of its expiry.
pub const TOKEN_EXPIRING_SOON_MS: u64 = 300_000;

/// The body of a login request.
#[derive(Debug)]
pub struct LoginRequest {
    pub cpf: String,
    pub senha: String,
}

/// The outcome of a sign-in: the data on success, the error message on failure.
#[derive(Debug, Clone)]
pub struct AuthResult<T> {
    pub success: bool,
    pub data: Option<T>,
    pub error: Option<String>,
}

impl<T> AuthResult<T> {
    pub fn success(data: T) -> (r: AuthResult<T>)
        ensures
            r.success,
            r.data == Some(data),
            r.error is None,
    {
        AuthResult { success: true, data: Some(data), error: None }
    }

    pub fn error(message: String) -> (r: AuthResult<T>)
        ensures
            !r.success,
            r.data is None,
            r.error == Some(message),
    {
        AuthResult { success: false, data: None, error: Some(message) }
    }
}

/// The login request for a CPF as typed (only its digits are sent) and a password.
pub fn login_request(cpf: &str, senha: &str) -> (r: LoginRequest)
    ensures
        r.cpf@ == digits_of(cpf@),
        r.senha@ == senha@,
{
    LoginRequest { cpf: only_digits(cpf), senha: owned(senha) }
}

/// The message shown when a login request fails: the API's message, or
/// "Erro ao realizar login" when it gave none.
pub fn login_error_message(message: String) -> (r: String)
    ensures
        r@ == if message@.len() == 0 {
            "Erro ao realizar login"@
        } else {
            message@
        },
{
    if message.as_str().is_empty() {
        owned("Erro ao realizar login")
    } else {
        message
    }
}

/// The expiry instant stored in the session, when it reads as a `u64`.
pub open spec fn stored_expiry(expires_at: Option<Seq<char>>) -> Option<int> {
    match expires_at {
        Some(t) => match spec_u64_from_str(t) {
            Ok(n) => Some(n),
            Err(_) => None,
        },
        None => None,
    }
}

/// Signed in: there is a non-empty access token and a readable expiry instant
/// that lies after `now`.
pub open spec fn spec_is_authenticated(
    token: Option<Seq<char>>,
    expires_at: Option<Seq<char>>,
    now: u64,
) -> bool {
    match token {
        Some(t) => t.len() != 0 && match stored_expiry(expires_at) {
            Some(e) => now < e,
            None => false,
        },
        None => false,
    }
}

/// Expiring soon: the expiry is missing or unreadable, or `now` is past five minutes
/// before it.
pub open spec fn spec_is_token_expiring_soon(expires_at: Option<Seq<char>>, now: u64) -> bool {
    match stored_expiry(expires_at) {
        Some(e) => now > (if e >= TOKEN_EXPIRING_SOON_MS {
            e - TOKEN_EXPIRING_SOON_MS
        } else {
            0
        }),
        None => true,
    }
}

/// Whether the session holds a valid sign-in at time `now` (milliseconds), from the
/// stored access token and expiry instant.
pub fn is_authenticated(token: Option<&str>, expires_at: Option<&str>, now_ms: u64) -> (r: bool)
    ensures
        r == spec_is_authenticated(opt_view(token), opt_view(expires_at), now_ms),
{
    let token = match token {
        Some(t) => t,
        None => {
            return false;
        },
    };
    let expires_at = match expires_at {
        Some(e) => e,
        None => {
            return false;
        },
    };
    if token.is_empty() {
        return false;
    }
    match u64_from_str(expires_at) {
        Ok(e) => now_ms < e,
        Err(_) => false,
    }
}

/// Whether the stored token expires within five minutes of `now` (or cannot be read).
pub fn is_token_expiring_soon(expires_at: Option<&str>, now_ms: u64) -> (r: bool)
    ensures
        r == spec_is_token_expiring_soon(opt_view(expires_at), now_ms),
{
    let expires_at = match expires_at {
        Some(e) => e,
        None => {
            return true;
        },
    };
    match u64_from_str(expires_at) {
        Ok(e) => now_ms > e.saturating_sub(TOKEN_EXPIRING_SOON_MS),
        Err(_) => true,
    }
}

/// A session with a token that is not expiring soon is signed in (for any stored
/// expiry other than the instant 0).
pub proof fn law_not_expiring_means_authenticated(
    token: Seq<char>,
    expires_at: Option<Seq<char>>,
    now: u64,
)
    requires
        token.len() != 0,
        stored_expiry(expires_at) != Some(0int),
        !spec_is_token_expiring_soon(expires_at, now),
    ensures
        spec_is_authenticated(Some(token), expires_at, now),
{
    if let Some(t) = expires_at {
        lemma_parse_unsigned_bounds(t, u64::MAX as int);
    }
}

/// A session that is signed in has a readable expiry after `now`; a token signed in
/// at `now` with more than five minutes left is not expiring soon.
pub proof fn law_authenticated_with_time_left(token: Seq<char>, expires_at: Option<Seq<char>>, now: u64)
    requires
        spec_is_authenticated(Some(token), expires_at, now),
        stored_expiry(expires_at) matches Some(e) && now + TOKEN_EXPIRING_SOON_MS <= e,
    ensures
        !spec_is_token_expiring_soon(expires_at, now),
{
}


/// Records in the session storage that a login took place (`loginRealizado` =
/// `true`), given how that write went: the answer of `storage_write_result` for
/// that key.
pub fn mark_authenticated(outcome: StorageWrite) -> (r: Result<(), ApiError>)
    ensures
        error_view(r) == spec_storage_write_result(LOGIN_REALIZADO_KEY@, outcome),
        r matches Err(e) ==> e.status is None,
{
    storage_write_result(LOGIN_REALIZADO_KEY, outcome)
}

} // verus!

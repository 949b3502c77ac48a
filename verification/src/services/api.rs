//! The data the API client works with: errors, tokens and the list envelopes the
//! API may answer with, and the decisions the client takes on responses.
use vstd::prelude::*;
use crate::number::{decimal, u64_to_string};
use crate::text::{owned, push_str};

verus! {

pub const ACCESS_TOKEN_KEY: &'static str = "access_token";

pub const REFRESH_TOKEN_KEY: &'static str = "refresh_token";

pub const TOKEN_TYPE_KEY: &'static str = "token_type";

pub const EXPIRES_IN_KEY: &'static str = "expires_in";

pub const REFRESH_EXPIRES_IN_KEY: &'static str = "refresh_expires_in";

pub const EXPIRES_AT_KEY: &'static str = "expires_at";

pub const REFRESH_EXPIRES_AT_KEY: &'static str = "refresh_expires_at";

pub const LOGIN_REALIZADO_KEY: &'static str = "loginRealizado";

/// The HTTP status of an unauthorized request.
pub const UNAUTHORIZED: u16 = 401;

/// An error of an API call: the HTTP status when there was a response, and a message.
#[derive(Debug)]
pub struct ApiError {
    pub status: Option<u16>,
    pub message: String,
}

impl ApiError {
    /// An error without a status.
    pub fn new(message: String) -> (r: ApiError)
        ensures
            r.status is None,
            r.message == message,
    {
        ApiError { status: None, message }
    }

    /// An error of a response with `status`.
    pub fn with_status(status: u16, message: String) -> (r: ApiError)
        ensures
            r.status == Some(status),
            r.message == message,
    {
        ApiError { status: Some(status), message }
    }
}

/// How a write to the session storage went: no storage, the storage refused the
/// item, or it was saved.
#[derive(Debug, Clone, Copy, PartialEq, Eq, Structural)]
pub enum StorageWrite {
    Unavailable,
    Refused,
    Saved,
}

/// What a write of `key` to the session storage answers: `Session storage
/// indisponivel` without a storage, `Nao foi possivel salvar <key>` when the item
/// was refused, and success when it was saved.
pub open spec fn spec_storage_write_result(key: Seq<char>, outcome: StorageWrite) -> Result<(), Seq<char>> {
    match outcome {
        StorageWrite::Unavailable => Err("Session storage indisponivel"@),
        StorageWrite::Refused => Err("Nao foi possivel salvar "@ + key),
        StorageWrite::Saved => Ok(()),
    }
}

/// An error's message, for contracts.
pub open spec fn error_view(r: Result<(), ApiError>) -> Result<(), Seq<char>> {
    match r {
        Ok(()) => Ok(()),
        Err(e) => Err(e.message@),
    }
}

/// The answer to a write of `key` to the session storage (see
/// `spec_storage_write_result`); errors carry no status.
pub fn storage_write_result(key: &str, outcome: StorageWrite) -> (r: Result<(), ApiError>)
    ensures
        error_view(r) == spec_storage_write_result(key@, outcome),
        r matches Err(e) ==> e.status is None,
{
    match outcome {
        StorageWrite::Unavailable => Err(ApiError::new(owned("Session storage indisponivel"))),
        StorageWrite::Refused => {
            let mut m = owned("Nao foi possivel salvar ");
            push_str(&mut m, key);
            Err(ApiError::new(m))
        },
        StorageWrite::Saved => Ok(()),
    }
}

/// The body of an error response, as far as it could be read.
#[derive(Debug)]
pub struct ApiErrorBody {
    pub detail: Option<String>,
    pub message: Option<String>,
}

/// The message of a failed response: the body's `detail`, else its `message`, else
/// "Erro desconhecido" (also when the body could not be read).
pub open spec fn spec_error_message(body: Option<ApiErrorBody>) -> Seq<char> {
    match body {
        Some(b) => match b.detail {
            Some(d) => d@,
            None => match b.message {
                Some(m) => m@,
                None => "Erro desconhecido"@,
            },
        },
        None => "Erro desconhecido"@,
    }
}

/// The message of a failed response (see `spec_error_message`).
pub fn error_message(body: Option<ApiErrorBody>) -> (r: String)
    ensures
        r@ == spec_error_message(body),
{
    match body {
        Some(b) => match b.detail {
            Some(d) => d,
            None => match b.message {
                Some(m) => m,
                None => owned("Erro desconhecido"),
            },
        },
        None => owned("Erro desconhecido"),
    }
}

/// Whether a request is sent again after refreshing the access token: its response
/// was `401 Unauthorized` and the request allows a retry.
pub fn should_refresh(status: u16, retry_on_unauthorized: bool) -> (r: bool)
    ensures
        r == (status == UNAUTHORIZED && retry_on_unauthorized),
{
    status == UNAUTHORIZED && retry_on_unauthorized
}

/// The tokens the API issues on login and refresh; lifetimes in seconds.
#[derive(Debug, Clone)]
pub struct AuthTokens {
    pub access_token: String,
    pub refresh_token: String,
    pub token_type: String,
    pub expires_in: u64,
    pub refresh_expires_in: u64,
}

/// The session entries written for `tokens` at time `now` (milliseconds): the
/// tokens, their lifetimes, the instants they expire (`now` plus the lifetime in
/// milliseconds) and the login flag.
pub open spec fn spec_token_entries(tokens: AuthTokens, now: u64) -> Seq<(Seq<char>, Seq<char>)> {
    seq![
        (ACCESS_TOKEN_KEY@, tokens.access_token@),
        (REFRESH_TOKEN_KEY@, tokens.refresh_token@),
        (TOKEN_TYPE_KEY@, tokens.token_type@),
        (EXPIRES_IN_KEY@, decimal(tokens.expires_in as nat)),
        (REFRESH_EXPIRES_IN_KEY@, decimal(tokens.refresh_expires_in as nat)),
        (EXPIRES_AT_KEY@, decimal((now + tokens.expires_in * 1000) as nat)),
        (REFRESH_EXPIRES_AT_KEY@, decimal((now + tokens.refresh_expires_in * 1000) as nat)),
        (LOGIN_REALIZADO_KEY@, "true"@),
    ]
}

pub open spec fn entry_views(v: Seq<(&'static str, String)>) -> Seq<(Seq<char>, Seq<char>)> {
    v.map_values(|e: (&'static str, String)| (e.0@, e.1@))
}

/// The session entries to write for `tokens` at time `now` (see `spec_token_entries`).
pub fn token_session_entries(tokens: &AuthTokens, now: u64) -> (r: Vec<(&'static str, String)>)
    requires
        now + tokens.expires_in * 1000 <= u64::MAX,
        now + tokens.refresh_expires_in * 1000 <= u64::MAX,
    ensures
        entry_views(r@) == spec_token_entries(*tokens, now),
{
    let expires_at = now + tokens.expires_in * 1000;
    let refresh_expires_at = now + tokens.refresh_expires_in * 1000;
    let mut r: Vec<(&'static str, String)> = Vec::new();
    r.push((ACCESS_TOKEN_KEY, owned(tokens.access_token.as_str())));
    r.push((REFRESH_TOKEN_KEY, owned(tokens.refresh_token.as_str())));
    r.push((TOKEN_TYPE_KEY, owned(tokens.token_type.as_str())));
    r.push((EXPIRES_IN_KEY, u64_to_string(tokens.expires_in)));
    r.push((REFRESH_EXPIRES_IN_KEY, u64_to_string(tokens.refresh_expires_in)));
    r.push((EXPIRES_AT_KEY, u64_to_string(expires_at)));
    r.push((REFRESH_EXPIRES_AT_KEY, u64_to_string(refresh_expires_at)));
    r.push((LOGIN_REALIZADO_KEY, owned("true")));
    assert(entry_views(r@) =~= spec_token_entries(*tokens, now));
    r
}

/// A list response: the API answers with a bare array or with the array under
/// `data`, `results` or `items`.
#[derive(Debug)]
pub enum ListResponse<T> {
    List(Vec<T>),
    Data { data: Vec<T> },
    Results { results: Vec<T> },
    Items { items: Vec<T> },
}

/// The items of a list response, whichever envelope holds them.
pub open spec fn spec_list_items<T>(r: ListResponse<T>) -> Seq<T> {
    match r {
        ListResponse::List(v) => v@,
        ListResponse::Data { data } => data@,
        ListResponse::Results { results } => results@,
        ListResponse::Items { items } => items@,
    }
}

impl<T> ListResponse<T> {
    /// The items, whichever envelope holds them.
    pub fn into_items(self) -> (r: Vec<T>)
        ensures
            r@ == spec_list_items(self),
    {
        match self {
            ListResponse::List(items) => items,
            ListResponse::Data { data } => data,
            ListResponse::Results { results } => results,
            ListResponse::Items { items } => items,
        }
    }
}

} // verus!

//! The error answers of the service.

use vstd::prelude::*;

use crate::text::str_eq;

verus! {

/// An error answer: the HTTP status, the stable machine code and the message.
#[derive(Debug)]
pub struct ApiError {
    pub status: u16,
    pub code: String,
    pub message: String,
}

impl ApiError {
    pub open spec fn is(self, status: int, code: Seq<char>, message: Seq<char>) -> bool {
        self.status == status && self.code@ == code && self.message@ == message
    }

    /// A rejected argument.
    pub open spec fn is_invalid(self, message: Seq<char>) -> bool {
        self.is(400, "invalid_argument"@, message)
    }
}

/// The request is refused as an invalid argument, with this message.
pub open spec fn refused<T>(r: Result<T, ApiError>, message: Seq<char>) -> bool {
    r matches Err(e) && e.is_invalid(message)
}

pub fn api_error(status: u16, code: &str, message: &str) -> (r: ApiError)
    ensures
        r.is(status as int, code@, message@),
{
    ApiError { status, code: code.to_owned(), message: message.to_owned() }
}

pub fn invalid_argument(message: &str) -> (r: ApiError)
    ensures
        r.is_invalid(message@),
{
    api_error(400, "invalid_argument", message)
}

pub fn storage_disabled() -> (r: ApiError)
    ensures
        r.is(503, "temporarily_unavailable"@, "storage is disabled"@),
{
    api_error(503, "temporarily_unavailable", "storage is disabled")
}

pub fn database_missing() -> (r: ApiError)
    ensures
        r.is(503, "storage_unavailable"@, "database is not configured"@),
{
    api_error(503, "storage_unavailable", "database is not configured")
}

/// The ways in which the store can fail, as far as the answer depends on them.
#[derive(Debug, Clone, Copy, PartialEq, Eq, Structural)]
pub enum StorageFailure {
    NotFound,
    Validation,
    Conflict,
    Lease,
    Migration,
    Other,
}

pub open spec fn storage_status(kind: StorageFailure) -> int {
    match kind {
        StorageFailure::NotFound => 404,
        StorageFailure::Validation => 400,
        StorageFailure::Conflict => 409,
        StorageFailure::Lease => 409,
        StorageFailure::Migration => 503,
        StorageFailure::Other => 500,
    }
}

pub open spec fn storage_code(kind: StorageFailure) -> Seq<char> {
    match kind {
        StorageFailure::NotFound => "not_found"@,
        StorageFailure::Validation => "invalid_argument"@,
        StorageFailure::Conflict => "version_conflict"@,
        StorageFailure::Lease => "version_conflict"@,
        StorageFailure::Migration => "temporarily_unavailable"@,
        StorageFailure::Other => "internal"@,
    }
}

/// Details of a failure on the server's side are not shown.
pub open spec fn storage_message(kind: StorageFailure, detail: Seq<char>) -> Seq<char> {
    match kind {
        StorageFailure::Migration => "storage is temporarily unavailable"@,
        StorageFailure::Other => "internal server error"@,
        _ => detail,
    }
}

pub fn map_storage_error(kind: StorageFailure, detail: &str) -> (r: ApiError)
    ensures
        r.is(storage_status(kind), storage_code(kind), storage_message(kind, detail@)),
{
    match kind {
        StorageFailure::NotFound => api_error(404, "not_found", detail),
        StorageFailure::Validation => api_error(400, "invalid_argument", detail),
        StorageFailure::Conflict => api_error(409, "version_conflict", detail),
        StorageFailure::Lease => api_error(409, "version_conflict", detail),
        StorageFailure::Migration => api_error(
            503,
            "temporarily_unavailable",
            "storage is temporarily unavailable",
        ),
        StorageFailure::Other => api_error(500, "internal", "internal server error"),
    }
}

/// What a failed look-up of an access token is answered: an unknown token asks to
/// sign in, anything else is a storage error.
pub fn map_account_error(kind: StorageFailure, detail: &str) -> (r: ApiError)
    ensures
        kind is NotFound ==> r.is(401, "unauthenticated"@, "sign in to continue"@),
        !(kind is NotFound) ==> r.is(
            storage_status(kind),
            storage_code(kind),
            storage_message(kind, detail@),
        ),
{
    match kind {
        StorageFailure::NotFound => api_error(401, "unauthenticated", "sign in to continue"),
        _ => map_storage_error(kind, detail),
    }
}

/// An error whose detail may not leave the server shows none of it: the answer is
/// the same whatever the detail was.
pub proof fn lemma_server_errors_hide_detail(kind: StorageFailure, a: Seq<char>, b: Seq<char>)
    requires
        storage_status(kind) >= 500,
    ensures
        storage_message(kind, a) == storage_message(kind, b),
{
}

/// The token of a bearer authorization header, when it is not blank.
pub open spec fn bearer_token_of(header: Option<Seq<char>>) -> Option<Seq<char>> {
    match header {
        Some(value) => match crate::text::stripped_prefix(value, "Bearer "@) {
            Some(token) => if crate::text::trimmed(token).len() > 0 {
                Some(token)
            } else {
                None
            },
            None => None,
        },
        None => None,
    }
}

pub fn bearer_token(authorization: Option<&str>) -> (r: Option<String>)
    ensures
        crate::text::opt_view(r) == bearer_token_of(
            crate::text::str_view(authorization),
        ),
{
    match authorization {
        Some(value) => match crate::text::strip_prefix(value, "Bearer ") {
            Some(token) => {
                if crate::text::is_blank(token.as_str()) {
                    None
                } else {
                    Some(token)
                }
            },
            None => None,
        },
        None => None,
    }
}

/// Whether the request carries the configured administrator token.
pub fn require_admin(configured: Option<&str>, authorization: Option<&str>) -> (r: Result<
    (),
    ApiError,
>)
    ensures
        configured is None ==> (r matches Err(e) && e.is(
            503,
            "temporarily_unavailable"@,
            "MPGS_ADMIN_TOKEN is not configured"@,
        )),
        configured is Some ==> {
            let granted = authorization is Some && crate::text::stripped_prefix(
                authorization->0@,
                "Bearer "@,
            ) == Some(configured->0@);
            &&& r is Ok <==> granted
            &&& !granted ==> (r matches Err(e) && e.is(
                401,
                "unauthenticated"@,
                "invalid admin token"@,
            ))
        },
{
    match configured {
        None => Err(
            api_error(503, "temporarily_unavailable", "MPGS_ADMIN_TOKEN is not configured"),
        ),
        Some(expected) => {
            let granted = match authorization {
                Some(value) => match crate::text::strip_prefix(value, "Bearer ") {
                    Some(token) => str_eq(token.as_str(), expected),
                    None => false,
                },
                None => false,
            };
            if granted {
                Ok(())
            } else {
                Err(api_error(401, "unauthenticated", "invalid admin token"))
            }
        },
    }
}

/// A client-supplied request identifier is taken over when it is short and made of
/// letters, digits and `-`, `_`, `.`, `:`.
pub open spec fn request_id_char(c: char) -> bool {
    crate::text::is_digit(c) || crate::text::is_ascii_lower(c) || crate::text::is_ascii_upper(c)
        || c == '-' || c == '_' || c == '.' || c == ':'
}

pub open spec fn all_request_id_chars(text: Seq<char>) -> bool {
    forall|i: int| 0 <= i < text.len() ==> request_id_char(#[trigger] text[i])
}

pub fn valid_request_id(value: &str) -> (r: bool)
    ensures
        r == (1 <= crate::text::byte_len(value@) <= 64 && all_request_id_chars(value@)),
{
    let length: usize = crate::text::str_byte_len(value);
    if length == 0 || length > 64 {
        return false;
    }
    let chars = crate::text::to_chars(value);
    let mut i: usize = 0;
    while i < chars.len()
        invariant
            0 <= i <= chars@.len(),
            chars@ == value@,
            forall|j: int| 0 <= j < i ==> request_id_char(#[trigger] value@[j]),
        decreases chars@.len() - i,
    {
        let c: char = chars[i];
        let fine = ('0' <= c && c <= '9') || ('a' <= c && c <= 'z') || ('A' <= c && c <= 'Z') || c
            == '-' || c == '_' || c == '.' || c == ':';
        if !fine {
            assert(!request_id_char(value@[i as int]));
            return false;
        }
        i = i + 1;
    }
    true
}

}

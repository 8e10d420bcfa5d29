//! Access checks: a bearer token in the `Authorization` header, or a key
//! given as a query parameter, compared with the configured keys.

use vstd::prelude::*;
use crate::text::{chars_of, eq_chars, starts_with, starts_with_exec, slice_chars, strip_prefix, trim, trim_exec};
use crate::errors::{err_v, ApiError, ApiErrorV, ErrorKind};

verus! {

/// What a check answers: access, or the message it is refused with.
pub open spec fn outcome_of(r: Result<(), ApiError>) -> Result<(), Seq<char>> {
    match r {
        Ok(_) => Ok(()),
        Err(e) => Err(e.message@),
    }
}

/// Every refusal is an authentication error.
pub open spec fn refusal_kind_ok(r: Result<(), ApiError>) -> bool {
    r matches Err(e) ==> e.kind == ErrorKind::Authentication
}

/// The token of an `Authorization` header of the form `Bearer <token>`,
/// trimmed.
pub open spec fn bearer_of(header: Option<Seq<char>>) -> Option<Seq<char>> {
    match header {
        Some(a) => match strip_prefix(a, "Bearer "@) {
            Some(rest) => Some(trim(rest)),
            None => None,
        },
        None => None,
    }
}

/// What to do when the configured key is empty.
pub enum EmptyKeyPolicy {
    /// Let every request through: no key means no check.
    Allow,
    /// Refuse every request: the key must be configured.
    Deny,
    /// Decide by a switch: let requests through when it is on.
    Switch(bool),
}

/// The answer when the configured key is empty.
pub open spec fn empty_key_outcome(policy: EmptyKeyPolicy) -> Result<(), Seq<char>> {
    match policy {
        EmptyKeyPolicy::Allow => Ok(()),
        EmptyKeyPolicy::Deny => Err("App key is not configured"@),
        EmptyKeyPolicy::Switch(enabled) => if enabled {
            Ok(())
        } else {
            Err("Public access is disabled"@)
        },
    }
}

/// The answer to a request with `header` as its `Authorization` header.
pub open spec fn bearer_outcome(header: Option<Seq<char>>, key: Seq<char>, policy: EmptyKeyPolicy) -> Result<
    (),
    Seq<char>,
> {
    if key.len() == 0 {
        empty_key_outcome(policy)
    } else {
        match bearer_of(header) {
            Some(t) => if t == key {
                Ok(())
            } else {
                Err("Invalid authentication token"@)
            },
            None => Err("Missing authentication token"@),
        }
    }
}

/// The key a query parameter gives: without a `Bearer ` prefix, trimmed.
pub open spec fn query_token(q: Seq<char>) -> Seq<char> {
    match strip_prefix(q, "Bearer "@) {
        Some(v) => trim(v),
        None => trim(q),
    }
}

/// The answer to a request with `query_key` as its key parameter.
pub open spec fn query_outcome(query_key: Option<Seq<char>>, key: Seq<char>, policy: EmptyKeyPolicy) -> Result<
    (),
    Seq<char>,
> {
    if key.len() == 0 {
        empty_key_outcome(policy)
    } else {
        match query_key {
            Some(q) => if query_token(q) == key {
                Ok(())
            } else {
                Err("Invalid authentication token"@)
            },
            None => Err("Invalid authentication token"@),
        }
    }
}

pub open spec fn opt_str(o: Option<&str>) -> Option<Seq<char>> {
    match o {
        Some(s) => Some(s@),
        None => None,
    }
}

fn refuse(msg: &str) -> (r: Result<(), ApiError>)
    ensures
        outcome_of(r) == Err::<(), Seq<char>>(msg@),
        refusal_kind_ok(r),
{
    Err(ApiError::authentication(msg))
}

fn empty_key_exec(policy: &EmptyKeyPolicy) -> (r: Result<(), ApiError>)
    ensures
        outcome_of(r) == empty_key_outcome(*policy),
        refusal_kind_ok(r),
{
    match policy {
        EmptyKeyPolicy::Allow => Ok(()),
        EmptyKeyPolicy::Deny => refuse("App key is not configured"),
        EmptyKeyPolicy::Switch(enabled) => if *enabled {
            Ok(())
        } else {
            refuse("Public access is disabled")
        },
    }
}

fn strip_bearer(s: &[char]) -> (r: Option<Vec<char>>)
    ensures
        r matches Some(v) ==> strip_prefix(s@, "Bearer "@) == Some(v@),
        r is None ==> strip_prefix(s@, "Bearer "@) is None,
{
    let p = chars_of("Bearer ");
    if starts_with_exec(s, p.as_slice()) {
        Some(slice_chars(s, p.len(), s.len()))
    } else {
        None
    }
}

/// The token of an `Authorization` header of the form `Bearer <token>`.
pub fn extract_bearer(header: Option<&str>) -> (r: Option<String>)
    ensures
        r matches Some(t) ==> bearer_of(opt_str(header)) == Some(t@),
        r is None ==> bearer_of(opt_str(header)) is None,
{
    let h = match header {
        Some(h) => h,
        None => return None,
    };
    match strip_bearer(chars_of(h).as_slice()) {
        Some(rest) => Some(crate::text::string_of(trim_exec(rest.as_slice()).as_slice())),
        None => None,
    }
}

/// Checks the bearer token of a request against `key`.
pub fn verify_bearer(header: Option<&str>, key: &str, policy: &EmptyKeyPolicy) -> (r: Result<(), ApiError>)
    ensures
        outcome_of(r) == bearer_outcome(opt_str(header), key@, *policy),
        refusal_kind_ok(r),
{
    if key.is_empty() {
        return empty_key_exec(policy);
    }
    match extract_bearer(header) {
        Some(token) => if eq_chars(chars_of(token.as_str()).as_slice(), chars_of(key).as_slice()) {
            Ok(())
        } else {
            refuse("Invalid authentication token")
        },
        None => refuse("Missing authentication token"),
    }
}

/// Checks the key parameter of a request against `key`.
pub fn verify_query(query_key: Option<String>, key: &str, policy: &EmptyKeyPolicy) -> (r: Result<(), ApiError>)
    ensures
        outcome_of(r) == query_outcome(
            match query_key {
                Some(q) => Some(q@),
                None => None,
            },
            key@,
            *policy,
        ),
        refusal_kind_ok(r),
{
    if key.is_empty() {
        return empty_key_exec(policy);
    }
    if let Some(q) = query_key {
        let qc = chars_of(q.as_str());
        let raw = match strip_bearer(qc.as_slice()) {
            Some(v) => trim_exec(v.as_slice()),
            None => trim_exec(qc.as_slice()),
        };
        if eq_chars(raw.as_slice(), chars_of(key).as_slice()) {
            return Ok(());
        }
    }
    refuse("Invalid authentication token")
}

/// Checks a request against the API key; with no API key configured every
/// request passes.
pub fn verify_api_key(header: Option<&str>, api_key: &str) -> (r: Result<(), ApiError>)
    ensures
        outcome_of(r) == bearer_outcome(opt_str(header), api_key@, EmptyKeyPolicy::Allow),
        refusal_kind_ok(r),
{
    verify_bearer(header, api_key, &EmptyKeyPolicy::Allow)
}

/// Checks a request against the admin key, which must be configured.
pub fn verify_app_key(header: Option<&str>, app_key: &str) -> (r: Result<(), ApiError>)
    ensures
        outcome_of(r) == bearer_outcome(opt_str(header), app_key@, EmptyKeyPolicy::Deny),
        refusal_kind_ok(r),
{
    verify_bearer(header, app_key, &EmptyKeyPolicy::Deny)
}

/// Checks a stream request's key parameter against the API key.
pub fn verify_stream_api_key(query_key: Option<String>, api_key: &str) -> (r: Result<(), ApiError>)
    ensures
        outcome_of(r) == query_outcome(
            match query_key {
                Some(q) => Some(q@),
                None => None,
            },
            api_key@,
            EmptyKeyPolicy::Allow,
        ),
        refusal_kind_ok(r),
{
    verify_query(query_key, api_key, &EmptyKeyPolicy::Allow)
}

/// Checks a request against the public key; with no public key configured
/// the public switch decides.
pub fn verify_public_key(header: Option<&str>, public_enabled: bool, public_key: &str) -> (r: Result<(), ApiError>)
    ensures
        outcome_of(r) == bearer_outcome(opt_str(header), public_key@, EmptyKeyPolicy::Switch(public_enabled)),
        refusal_kind_ok(r),
{
    verify_bearer(header, public_key, &EmptyKeyPolicy::Switch(public_enabled))
}

/// Checks a stream request's key parameter against the public key.
pub fn verify_stream_public_key(query_key: Option<String>, public_enabled: bool, public_key: &str) -> (r: Result<
    (),
    ApiError,
>)
    ensures
        outcome_of(r) == query_outcome(
            match query_key {
                Some(q) => Some(q@),
                None => None,
            },
            public_key@,
            EmptyKeyPolicy::Switch(public_enabled),
        ),
        refusal_kind_ok(r),
{
    verify_query(query_key, public_key, &EmptyKeyPolicy::Switch(public_enabled))
}

pub open spec fn opt_string(o: Option<String>) -> Option<Seq<char>> {
    match o {
        Some(s) => Some(s@),
        None => None,
    }
}

/// Whether an image-stream socket is admitted: a request that names a known
/// task is, and any other only when its key parameter passes the public-key
/// check.
pub fn admit_stream_socket(
    known_task: bool,
    query_key: Option<String>,
    public_enabled: bool,
    public_key: &str,
) -> (b: bool)
    ensures
        b == (known_task || query_outcome(
            opt_string(query_key),
            public_key@,
            EmptyKeyPolicy::Switch(public_enabled),
        ) is Ok),
{
    if known_task {
        true
    } else {
        verify_stream_public_key(query_key, public_enabled, public_key).is_ok()
    }
}

/// The answer to an event-stream request that names no known task: the
/// refusal of its key parameter where the public-key check refuses it, and
/// otherwise an invalid-request error with `message`, as such a stream needs
/// a task.
pub fn stream_without_task(
    query_key: Option<String>,
    public_enabled: bool,
    public_key: &str,
    message: &str,
) -> (r: ApiError)
    ensures
        match query_outcome(opt_string(query_key), public_key@, EmptyKeyPolicy::Switch(public_enabled)) {
            Err(m) => r@ == err_v(ErrorKind::Authentication, m),
            Ok(_) => r@ == err_v(ErrorKind::InvalidRequest, message@),
        },
{
    match verify_stream_public_key(query_key, public_enabled, public_key) {
        Err(e) => e,
        Ok(_) => ApiError::invalid_request(message),
    }
}

/// The answer to a request that either key may admit.
pub open spec fn any_key_outcome(
    header: Option<Seq<char>>,
    api_key: Seq<char>,
    public_enabled: bool,
    public_key: Seq<char>,
) -> Result<(), Seq<char>> {
    if bearer_outcome(header, api_key, EmptyKeyPolicy::Allow) is Ok || bearer_outcome(
        header,
        public_key,
        EmptyKeyPolicy::Switch(public_enabled),
    ) is Ok {
        Ok(())
    } else {
        Err("Invalid authentication token"@)
    }
}

/// Checks a request against the API key, then against the public key.
pub fn verify_any_key(header: Option<&str>, api_key: &str, public_enabled: bool, public_key: &str) -> (r: Result<
    (),
    ApiError,
>)
    ensures
        outcome_of(r) == any_key_outcome(opt_str(header), api_key@, public_enabled, public_key@),
        refusal_kind_ok(r),
{
    if verify_api_key(header, api_key).is_ok() {
        return Ok(());
    }
    if verify_public_key(header, public_enabled, public_key).is_ok() {
        return Ok(());
    }
    refuse("Invalid authentication token")
}

// ---------------------------------------------------------------------------
// Laws
// ---------------------------------------------------------------------------

proof fn lemma_bearer_prefix(key: Seq<char>)
    ensures
        strip_prefix("Bearer "@ + key, "Bearer "@) == Some(key),
{
    reveal_strlit("Bearer ");
    let s = "Bearer "@ + key;
    assert(s.subrange(0, 7) =~= "Bearer "@);
    assert(s.skip(7) =~= key);
}

/// A request that bears exactly the configured key (a key without
/// surrounding white space) is let through, whatever the policy.
pub proof fn lemma_bearer_of_key_passes(key: Seq<char>, policy: EmptyKeyPolicy)
    requires
        key.len() > 0,
        trim(key) == key,
    ensures
        bearer_outcome(Some("Bearer "@ + key), key, policy) is Ok,
{
    lemma_bearer_prefix(key);
}

/// A request whose key parameter is the configured key, with or without a
/// `Bearer ` prefix, is let through, whatever the policy (for a key without
/// surrounding white space that does not itself start with `Bearer `).
pub proof fn lemma_query_key_passes(key: Seq<char>, policy: EmptyKeyPolicy)
    requires
        key.len() > 0,
        trim(key) == key,
        !starts_with(key, "Bearer "@),
    ensures
        query_outcome(Some(key), key, policy) is Ok,
        query_outcome(Some("Bearer "@ + key), key, policy) is Ok,
{
    lemma_bearer_prefix(key);
}

/// With no API key configured, every request passes the API-key checks.
pub proof fn lemma_no_api_key_admits_all(header: Option<Seq<char>>, query_key: Option<Seq<char>>)
    ensures
        bearer_outcome(header, Seq::empty(), EmptyKeyPolicy::Allow) is Ok,
        query_outcome(query_key, Seq::empty(), EmptyKeyPolicy::Allow) is Ok,
{
}

/// A request admitted by the API key or by the public key is admitted by
/// the check that accepts either, and only those are.
pub proof fn lemma_any_key_is_either(
    header: Option<Seq<char>>,
    api_key: Seq<char>,
    public_enabled: bool,
    public_key: Seq<char>,
)
    ensures
        any_key_outcome(header, api_key, public_enabled, public_key) is Ok <==> (bearer_outcome(
            header,
            api_key,
            EmptyKeyPolicy::Allow,
        ) is Ok || bearer_outcome(header, public_key, EmptyKeyPolicy::Switch(public_enabled)) is Ok),
{
}

} // verus!

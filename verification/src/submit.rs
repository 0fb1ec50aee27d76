//! The intake of transactions: which requests are accepted, and what each request
//! is answered.
//!
//! A request is validated, its account's limits are read, the rate limit is
//! checked, the transaction gets an id and a place in the queue, and the client is
//! answered while the transaction is stored. The steps are here; `intake` puts them
//! in their order.

use crate::errors;
use crate::errors::{AppError, RedisError};
use crate::rate_limiter::RateLimitResult;
use crate::response;
use crate::text;
use axum::http::HeaderMap;
use serde_json::Value;
use uuid::Uuid;
use vstd::prelude::*;
use vstd::string::*;
use vstd::utf8::*;

verus! {

/// An account id is shorter than this, in characters.
pub const ACCOUNT_ID_LIMIT_CHARS: usize = 255;

/// 1 MB: the serialized data of a transaction is smaller than this.
pub const JSON_LIMIT_BYTES: usize = 1024 * 1024;

pub const PRIORITY_MIN: i32 = -1000;

pub const PRIORITY_MAX: i32 = 1000;

pub const DEFAULT_MAX_REQUESTS: u32 = 100;

pub const DEFAULT_WINDOW_SECONDS: u64 = 60;

/// The largest request body that is read, in bytes.
pub const MAX_BODY_BYTES: usize = 5 * 1024 * 1024;

/// The name under which the limits of this endpoint are kept.
pub const RL_BUCKET_SUBMIT_TX: &'static str = "api:v1:transactions:submit";

/// The name of the queue of transactions.
pub const PRIORITY_QUEUE_BASE: &'static str = "transactions";

/// A JSON value.
#[verifier::external_type_specification]
#[verifier::external_body]
pub struct ExJsonValue(serde_json::Value);

/// An error of the JSON crate.
#[verifier::external_type_specification]
#[verifier::external_body]
pub struct ExJsonError(serde_json::Error);

/// What a JSON value holds, as compact JSON text. `None`: it has no such text.
pub uninterp spec fn json_text(value: Value) -> Option<Seq<u8>>;

/// Calls `Value::is_null`. Claimed: a value is null exactly if its text is `null`.
#[verifier::external_body]
pub(crate) fn json_is_null(value: &Value) -> (b: bool)
    ensures
        b == (json_text(*value) == Some(encode_utf8("null"@))),
{
    value.is_null()
}

/// Calls `serde_json::to_vec` on a `Value`. Claimed: it succeeds exactly if the value
/// has a text, and gives that text.
#[verifier::external_body]
pub(crate) fn json_to_vec(value: &Value) -> (r: Result<Vec<u8>, serde_json::Error>)
    ensures
        match r {
            Ok(bytes) => json_text(*value) == Some(bytes@),
            Err(_) => json_text(*value) is None,
        },
{
    serde_json::to_vec(value)
}

/// `Value::clone`. Claimed: the copy has the text of the value.
pub assume_specification[ <serde_json::Value as Clone>::clone ](
    value: &serde_json::Value,
) -> (copy: serde_json::Value)
    ensures
        json_text(copy) == json_text(*value),
;

/// A request to submit a transaction.
#[derive(Debug, Clone)]
pub struct SubmitTransactionRequest {
    pub account_id: String,
    pub transaction_data: Value,
    pub priority: Option<i32>,
}

/// The answer to an accepted request.
#[derive(Debug)]
pub struct SubmitTransactionResponse {
    pub transaction_id: Uuid,
    pub queue_position: i64,
    pub estimated_processing_time_seconds: i64,
    pub status: String,
}

/// A transaction to be stored.
#[derive(Debug)]
pub struct NewTransactionQueue {
    pub transaction_id: Uuid,
    pub account_id: String,
    pub transaction_data: Value,
    pub status: String,
}

/// The database could not be read or written.
#[derive(Debug, Clone, Copy)]
pub struct DatabaseFailure;

/// An account id of at least 1 and fewer than 255 characters, not counting white space
/// around it.
pub open spec fn account_id_ok(account_id: Seq<char>) -> bool {
    1 <= text::trimmed(account_id).len() < ACCOUNT_ID_LIMIT_CHARS
}

/// A priority from -1000 to 1000, or none.
pub open spec fn priority_ok(priority: Option<i32>) -> bool {
    priority matches Some(p) ==> PRIORITY_MIN <= p <= PRIORITY_MAX
}

/// Why a request is refused before its rate limit is looked at: the status code and
/// the message. The first of these reasons counts.
pub open spec fn refusal(
    account_id: Seq<char>,
    data: Option<Seq<u8>>,
    priority: Option<i32>,
) -> Option<(u16, Seq<char>)> {
    if !account_id_ok(account_id) {
        Some((400u16, "Invalid account_id: must be 1-254 characters"@))
    } else if data == Some(encode_utf8("null"@)) {
        Some((400u16, "transaction_data cannot be null"@))
    } else if data is None {
        Some((400u16, "transaction_data contains unsupported or non-serializable values."@))
    } else if data->0.len() >= JSON_LIMIT_BYTES {
        Some((400u16, "transaction_data is too large (max 1048575 bytes)."@))
    } else if !priority_ok(priority) {
        Some((400u16, "Invalid priority: must be between -1000 and 1000."@))
    } else {
        None
    }
}

/// The request passes validation.
pub open spec fn is_valid(request: SubmitTransactionRequest) -> bool {
    refusal(request.account_id@, json_text(request.transaction_data), request.priority) is None
}

/// `r` accepts exactly if there is no reason to refuse, and refuses for the reason.
pub open spec fn answers_refusal(
    r: Result<(), AppError>,
    reason: Option<(u16, Seq<char>)>,
) -> bool {
    match reason {
        None => r is Ok,
        Some(why) => r matches Err(e) && errors::is_error(e, why.0, why.1, response::no_entries()),
    }
}

/// Checks the account id.
pub fn check_account_id(account_id: &str) -> (r: Result<(), AppError>)
    ensures
        answers_refusal(
            r,
            if account_id_ok(account_id@) {
                None
            } else {
                Some((400u16, "Invalid account_id: must be 1-254 characters"@))
            },
        ),
{
    let chars: usize = text::trim(account_id).unicode_len();
    if chars == 0 || chars >= ACCOUNT_ID_LIMIT_CHARS {
        return Err(AppError::bad_request("Invalid account_id: must be 1-254 characters"));
    }
    Ok(())
}

/// Checks the length of the serialized data. `None`: it cannot be serialized.
pub fn check_serialized(length: Option<usize>) -> (r: Result<(), AppError>)
    ensures
        answers_refusal(
            r,
            match length {
                None => Some(
                    (
                        400u16,
                        "transaction_data contains unsupported or non-serializable values."@,
                    ),
                ),
                Some(n) => if n >= JSON_LIMIT_BYTES {
                    Some((400u16, "transaction_data is too large (max 1048575 bytes)."@))
                } else {
                    None
                },
            },
        ),
{
    match length {
        Some(n) => {
            if n >= JSON_LIMIT_BYTES {
                Err(
                    AppError::bad_request("transaction_data is too large (max 1048575 bytes)."),
                )
            } else {
                Ok(())
            }
        },
        None => Err(
            AppError::bad_request(
                "transaction_data contains unsupported or non-serializable values.",
            ),
        ),
    }
}

/// Checks the priority.
pub fn check_priority(priority: Option<i32>) -> (r: Result<(), AppError>)
    ensures
        answers_refusal(
            r,
            if priority_ok(priority) {
                None
            } else {
                Some((400u16, "Invalid priority: must be between -1000 and 1000."@))
            },
        ),
{
    match priority {
        Some(p) => {
            if p < PRIORITY_MIN || p > PRIORITY_MAX {
                return Err(
                    AppError::bad_request("Invalid priority: must be between -1000 and 1000."),
                );
            }
        },
        None => {},
    }
    Ok(())
}

/// Validates a request. The checks run in the order of `refusal`.
pub fn validate_submit_request(request: &SubmitTransactionRequest) -> (r: Result<(), AppError>)
    ensures
        answers_refusal(
            r,
            refusal(request.account_id@, json_text(request.transaction_data), request.priority),
        ),
{
    match check_account_id(request.account_id.as_str()) {
        Err(e) => return Err(e),
        Ok(_) => {},
    }
    if json_is_null(&request.transaction_data) {
        return Err(AppError::bad_request("transaction_data cannot be null"));
    }
    let length: Option<usize> = match json_to_vec(&request.transaction_data) {
        Ok(bytes) => Some(bytes.len()),
        Err(_) => None,
    };
    match check_serialized(length) {
        Err(e) => return Err(e),
        Ok(_) => {},
    }
    check_priority(request.priority)
}

/// The header field that tells a client its limit.
pub open spec fn limit_entries(limit: u32) -> Map<Seq<char>, Seq<Seq<u8>>> {
    response::no_entries().insert(
        "x-ratelimit-limit"@,
        response::one_value(text::decimal(limit as int)),
    )
}

/// The header fields that tell a client its limit, what remains of it, and when it
/// resets.
pub open spec fn rate_limit_entries(
    limit: u32,
    result: RateLimitResult,
) -> Map<Seq<char>, Seq<Seq<u8>>> {
    limit_entries(limit).insert(
        "x-ratelimit-remaining"@,
        response::one_value(text::decimal(result.remaining as int)),
    ).insert(
        "x-ratelimit-reset"@,
        response::one_value(text::decimal(result.reset_at as int)),
    )
}

proof fn lemma_header_names()
    ensures
        response::is_header_name("X-RateLimit-Limit"@),
        response::is_header_name("X-RateLimit-Remaining"@),
        response::is_header_name("X-RateLimit-Reset"@),
        response::lower_case("X-RateLimit-Limit"@) == "x-ratelimit-limit"@,
        response::lower_case("X-RateLimit-Remaining"@) == "x-ratelimit-remaining"@,
        response::lower_case("X-RateLimit-Reset"@) == "x-ratelimit-reset"@,
{
    reveal_strlit("X-RateLimit-Limit");
    reveal_strlit("X-RateLimit-Remaining");
    reveal_strlit("X-RateLimit-Reset");
    reveal_strlit("x-ratelimit-limit");
    reveal_strlit("x-ratelimit-remaining");
    reveal_strlit("x-ratelimit-reset");
    assert(response::lower_case("X-RateLimit-Limit"@) =~= "x-ratelimit-limit"@);
    assert(response::lower_case("X-RateLimit-Remaining"@) =~= "x-ratelimit-remaining"@);
    assert(response::lower_case("X-RateLimit-Reset"@) =~= "x-ratelimit-reset"@);
}

/// Writes the limit alone into a header field.
fn limit_headers(limit: u32) -> (h: HeaderMap)
    ensures
        response::header_entries(h) == limit_entries(limit),
{
    proof {
        lemma_header_names();
        text::decimal_is_plain(limit as int);
    }
    let mut h = response::new_headers();
    let limit_text = text::decimal_text(limit as i128);
    response::insert_header(
        &mut h,
        "X-RateLimit-Limit",
        response::header_value(limit_text.as_str()),
    );
    h
}

/// Writes the rate limit into header fields.
pub fn construct_rate_limit_headers(limit: u32, rate_limit_result: &RateLimitResult) -> (h: HeaderMap)
    ensures
        response::header_entries(h) == rate_limit_entries(limit, *rate_limit_result),
{
    proof {
        lemma_header_names();
        text::decimal_is_plain(rate_limit_result.remaining as int);
        text::decimal_is_plain(rate_limit_result.reset_at as int);
    }
    let mut h = limit_headers(limit);
    let remaining_text = text::decimal_text(rate_limit_result.remaining as i128);
    response::insert_header(
        &mut h,
        "X-RateLimit-Remaining",
        response::header_value(remaining_text.as_str()),
    );
    let reset_text = text::decimal_text(rate_limit_result.reset_at as i128);
    response::insert_header(
        &mut h,
        "X-RateLimit-Reset",
        response::header_value(reset_text.as_str()),
    );
    h
}

/// The limit and the window, in seconds, that an account's row gives. Both are at
/// least 1. An account without a row has the default.
pub open spec fn rate_limit_props(row: Option<(i32, i32)>) -> (u32, u64) {
    match row {
        Some(r) => (
            if r.0 < 1 {
                1u32
            } else {
                r.0 as u32
            },
            if r.1 < 1 {
                1u64
            } else {
                r.1 as u64
            },
        ),
        None => (DEFAULT_MAX_REQUESTS, DEFAULT_WINDOW_SECONDS),
    }
}

/// Reads the answer to the query for an account's limits: the largest number of
/// requests and the length of the window in seconds.
pub fn get_rate_limit_props(row: Result<Option<(i32, i32)>, DatabaseFailure>) -> (props: Result<
    (u32, u64),
    AppError,
>)
    ensures
        match row {
            Ok(r) => props matches Ok(p) && p == rate_limit_props(r),
            Err(_) => props matches Err(e) && errors::is_error(
                e,
                500,
                "reading db failed"@,
                response::no_entries(),
            ),
        },
{
    match row {
        Ok(Some((mr, ws))) => {
            let max_requests: u32 = if mr < 1 {
                1
            } else {
                mr as u32
            };
            let window_seconds: u64 = if ws < 1 {
                1
            } else {
                ws as u64
            };
            Ok((max_requests, window_seconds))
        },
        Ok(None) => Ok((DEFAULT_MAX_REQUESTS, DEFAULT_WINDOW_SECONDS)),
        Err(_) => Err(AppError::internal_server_error("reading db failed")),
    }
}

/// The key under which the requests of an account to this endpoint are counted.
pub open spec fn account_key(account_id: Seq<char>) -> Seq<char> {
    "rl:"@ + account_id + ":"@ + RL_BUCKET_SUBMIT_TX@
}

/// The key under which the requests of an account to this endpoint are counted.
pub fn rate_limit_account_key(account_id: &str) -> (key: String)
    ensures
        key@ == account_key(account_id@),
{
    let mut key = text::join("rl:", account_id);
    key.append(":");
    key.append(RL_BUCKET_SUBMIT_TX);
    key
}

/// Reads the outcome of a check against `max_requests`. An allowed request goes on with
/// the header fields of the check; a refused one is answered with them. The words of a
/// failure stay inside the service; the answer to it still tells the limit.
pub fn apply_rate_limiting(
    max_requests: u32,
    checked: Result<RateLimitResult, RedisError>,
) -> (r: Result<(RateLimitResult, HeaderMap), AppError>)
    ensures
        match checked {
            Ok(result) => if result.allowed {
                r matches Ok(pair) && pair.0 == result && response::header_entries(pair.1)
                    == rate_limit_entries(max_requests, result)
            } else {
                r matches Err(e) && errors::is_error(
                    e,
                    429,
                    "Rate limit exceeded"@,
                    rate_limit_entries(max_requests, result),
                )
            },
            Err(_) => r matches Err(e) && errors::is_error(
                e,
                500,
                "rate limit check failed"@,
                limit_entries(max_requests),
            ),
        },
{
    match checked {
        Ok(result) => {
            let headers = construct_rate_limit_headers(max_requests, &result);
            if !result.allowed {
                return Err(
                    AppError::too_many_requests("Rate limit exceeded").with_headers(headers),
                );
            }
            Ok((result, headers))
        },
        Err(_) => Err(
            AppError::internal_server_error("rate limit check failed").with_headers(
                limit_headers(max_requests),
            ),
        ),
    }
}

/// Reads the outcome of putting a transaction into the queue: its position.
pub fn enqueue_and_position(enqueued: Result<i64, RedisError>) -> (r: Result<i64, AppError>)
    ensures
        match enqueued {
            Ok(position) => r == Ok::<i64, AppError>(position),
            Err(_) => r matches Err(e) && errors::is_error(
                e,
                500,
                "tx enqueing failed"@,
                response::no_entries(),
            ),
        },
{
    match enqueued {
        Ok(position) => Ok(position),
        Err(_) => Err(AppError::internal_server_error("tx enqueing failed")),
    }
}

/// The transaction that is stored for a request.
pub fn insert_transaction(request: &SubmitTransactionRequest, transaction_id: Uuid) -> (t:
    NewTransactionQueue)
    ensures
        stores(t, *request, transaction_id),
{
    NewTransactionQueue {
        transaction_id,
        account_id: request.account_id.clone(),
        transaction_data: request.transaction_data.clone(),
        status: "pending".to_owned(),
    }
}

/// Reads the outcome of storing a transaction: the row that the database gave back. The
/// words of a failure stay inside the service.
pub fn read_insert<T>(outcome: Result<T, DatabaseFailure>) -> (r: Result<T, AppError>)
    ensures
        match outcome {
            Ok(row) => r == Ok::<T, AppError>(row),
            Err(_) => r matches Err(e) && errors::is_error(
                e,
                500,
                "db insertion failed"@,
                response::no_entries(),
            ),
        },
{
    match outcome {
        Ok(row) => Ok(row),
        Err(_) => Err(AppError::internal_server_error("db insertion failed")),
    }
}

/// `t` is the transaction of `request` under the id, yet to be processed.
pub open spec fn stores(
    t: NewTransactionQueue,
    request: SubmitTransactionRequest,
    transaction_id: Uuid,
) -> bool {
    &&& t.transaction_id == transaction_id
    &&& t.account_id@ == request.account_id@
    &&& json_text(t.transaction_data) == json_text(request.transaction_data)
    &&& t.status@ == "pending"@
}

/// The estimate for a position can be computed in 64 bits.
pub open spec fn estimate_computable(queue_position: i64) -> bool {
    i64::MIN <= (queue_position - 1) * 30 <= i64::MAX
}

/// 30 seconds for each transaction ahead, but no more than an hour.
pub open spec fn estimate(queue_position: int) -> int {
    if (queue_position - 1) * 30 < 3600 {
        (queue_position - 1) * 30
    } else {
        3600
    }
}

/// Whether the estimate for a position can be computed.
pub fn is_estimate_computable(queue_position: i64) -> (b: bool)
    ensures
        b == estimate_computable(queue_position),
{
    let product: i128 = (queue_position as i128 - 1) * 30;
    i64::MIN as i128 <= product && product <= i64::MAX as i128
}

/// Estimates how long it takes until the transaction at a position is processed.
pub fn estimated_processing_time_seconds(queue_position: i64) -> (seconds: i64)
    requires
        estimate_computable(queue_position),
    ensures
        seconds == estimate(queue_position as int),
{
    let seconds: i64 = (queue_position - 1) * 30;
    if seconds < 3600 {
        seconds
    } else {
        3600
    }
}

} // verus!

//! The course of a submission, step by step.
//!
//! `handler` takes a submission and what happened last (an event), and gives back
//! the submission and what to do next (an action). A course begins with
//! `Submission::new` and `SubmitEvent::Received`, and ends with an answer: the
//! action is then `StoreAndAnswer` or `Refuse`.

use crate::errors;
use crate::errors::{AppError, RedisError};
use crate::rate_limiter::RateLimitResult;
use crate::response;
use crate::response::ResponseWithHeaders;
use crate::submit;
use crate::submit::{
    DatabaseFailure, NewTransactionQueue, SubmitTransactionRequest, SubmitTransactionResponse,
};
use crate::transaction_id;
use axum::http::HeaderMap;
use uuid::Uuid;
use vstd::pervasive::unreached;
use vstd::prelude::*;
use vstd::string::*;

verus! {

/// How far a submission has come.
#[derive(Debug)]
pub enum Stage {
    /// The request is there.
    Received,
    /// The limits of the account are being read.
    ReadingLimits,
    /// The request is being checked against the limit.
    CheckingLimit { max_requests: u32 },
    /// The transaction is being put into the queue.
    Enqueueing {
        max_requests: u32,
        result: RateLimitResult,
        headers: HeaderMap,
        transaction_id: Uuid,
    },
    /// The client has its answer.
    Answered,
}

/// A request on its way.
#[derive(Debug)]
pub struct Submission {
    pub request: SubmitTransactionRequest,
    pub stage: Stage,
}

/// What happened last.
#[derive(Debug)]
pub enum SubmitEvent {
    /// The request came in.
    Received,
    /// The row with the account's limits was looked up.
    LimitsRead(Result<Option<(i32, i32)>, DatabaseFailure>),
    /// The request was checked against the limit.
    LimitChecked(Result<RateLimitResult, RedisError>),
    /// The transaction was put into the queue, at this position.
    Enqueued(Result<i64, RedisError>),
}

/// What to do next.
#[derive(Debug)]
pub enum SubmitAction {
    /// Look up the row with the account's limits.
    ReadLimits { account_id: String, limit_type: String },
    /// Check the request against the limit.
    CheckRateLimit { key: String, max_requests: u32, window_seconds: u64 },
    /// Put the transaction into the queue.
    Enqueue { queue_name: String, data: String, priority: i32 },
    /// Store the transaction in the background, and answer the client.
    StoreAndAnswer {
        transaction: NewTransactionQueue,
        response: ResponseWithHeaders<SubmitTransactionResponse>,
    },
    /// Answer the client with the error.
    Refuse(AppError),
}

/// The priority of a request, 0 where it names none.
pub open spec fn priority_of(request: SubmitTransactionRequest) -> i32 {
    match request.priority {
        Some(p) => p,
        None => 0,
    }
}

impl Submission {
    /// What holds at each stage: nothing starts before the request is valid, and
    /// nothing goes into the queue before the limit allows it.
    pub open spec fn wf(self) -> bool {
        match self.stage {
            Stage::Received => true,
            Stage::ReadingLimits => submit::is_valid(self.request),
            Stage::CheckingLimit { max_requests } => submit::is_valid(self.request) && max_requests
                >= 1,
            Stage::Enqueueing { max_requests, result, headers, transaction_id } => {
                &&& submit::is_valid(self.request)
                &&& result.allowed
                &&& response::header_entries(headers) == submit::rate_limit_entries(
                    max_requests,
                    result,
                )
                &&& transaction_id::is_random_uuid(transaction_id::uuid_bytes(transaction_id))
            },
            Stage::Answered => true,
        }
    }

    /// A request that just came in.
    pub fn new(request: SubmitTransactionRequest) -> (submission: Self)
        ensures
            submission.request == request,
            submission.stage == Stage::Received,
            submission.wf(),
    {
        Submission { request, stage: Stage::Received }
    }
}

/// `event` is what a submission at `stage` waits for.
pub open spec fn awaits(stage: Stage, event: SubmitEvent) -> bool {
    match stage {
        Stage::Received => event is Received,
        Stage::ReadingLimits => event is LimitsRead,
        Stage::CheckingLimit { .. } => event is LimitChecked,
        Stage::Enqueueing { .. } => event matches SubmitEvent::Enqueued(enqueued)
            && (enqueued matches Ok(position) ==> submit::estimate_computable(position)),
        Stage::Answered => false,
    }
}

/// `response` answers an accepted request: the transaction is pending, at this
/// position of the queue.
pub open spec fn accepts(
    response: ResponseWithHeaders<SubmitTransactionResponse>,
    transaction_id: Uuid,
    queue_position: i64,
    entries: Map<Seq<char>, Seq<Seq<u8>>>,
) -> bool {
    &&& response.status == 200
    &&& response::header_entries(response.headers) == entries
    &&& response.body.transaction_id == transaction_id
    &&& response.body.queue_position == queue_position
    &&& response.body.estimated_processing_time_seconds == submit::estimate(queue_position as int)
    &&& response.body.status@ == "pending"@
}

/// The transaction of an allowed request gets its id and goes into the queue.
pub open spec fn begins_enqueue(
    request: SubmitTransactionRequest,
    max_requests: u32,
    result: RateLimitResult,
    after: Stage,
    action: SubmitAction,
) -> bool {
    &&& after matches Stage::Enqueueing {
        max_requests: m,
        result: r,
        headers,
        transaction_id,
    }
    &&& m == max_requests
    &&& r == result
    &&& response::header_entries(headers) == submit::rate_limit_entries(max_requests, result)
    &&& transaction_id::is_random_uuid(transaction_id::uuid_bytes(transaction_id))
    &&& action matches SubmitAction::Enqueue { queue_name, data, priority }
    &&& queue_name@ == submit::PRIORITY_QUEUE_BASE@
    &&& data@ == transaction_id::uuid_text(transaction_id::uuid_bytes(transaction_id))
    &&& priority == priority_of(request)
}

/// One step: `event` takes a submission of `request` from the stage `before` to the
/// stage `after`, and `action` is what to do next.
pub open spec fn is_step(
    request: SubmitTransactionRequest,
    before: Stage,
    event: SubmitEvent,
    after: Stage,
    action: SubmitAction,
) -> bool {
    match (before, event) {
        (Stage::Received, SubmitEvent::Received) => match submit::refusal(
            request.account_id@,
            submit::json_text(request.transaction_data),
            request.priority,
        ) {
            Some(why) => {
                &&& after == Stage::Answered
                &&& action matches SubmitAction::Refuse(e)
                &&& errors::is_error(e, why.0, why.1, response::no_entries())
            },
            None => {
                &&& after == Stage::ReadingLimits
                &&& action matches SubmitAction::ReadLimits { account_id, limit_type }
                &&& account_id@ == request.account_id@
                &&& limit_type@ == submit::RL_BUCKET_SUBMIT_TX@
            },
        },
        (Stage::ReadingLimits, SubmitEvent::LimitsRead(Ok(row))) => {
            let props = submit::rate_limit_props(row);
            &&& after == Stage::CheckingLimit { max_requests: props.0 }
            &&& action matches SubmitAction::CheckRateLimit { key, max_requests, window_seconds }
            &&& key@ == submit::account_key(request.account_id@)
            &&& max_requests == props.0
            &&& window_seconds == props.1
        },
        (Stage::ReadingLimits, SubmitEvent::LimitsRead(Err(_))) => {
            &&& after == Stage::Answered
            &&& action matches SubmitAction::Refuse(e)
            &&& errors::is_error(e, 500, "reading db failed"@, response::no_entries())
        },
        (Stage::CheckingLimit { max_requests }, SubmitEvent::LimitChecked(Ok(result))) => {
            if result.allowed {
                begins_enqueue(request, max_requests, result, after, action)
            } else {
                &&& after == Stage::Answered
                &&& action matches SubmitAction::Refuse(e)
                &&& errors::is_error(
                    e,
                    429,
                    "Rate limit exceeded"@,
                    submit::rate_limit_entries(max_requests, result),
                )
            }
        },
        (Stage::CheckingLimit { max_requests }, SubmitEvent::LimitChecked(Err(_))) => {
            &&& after == Stage::Answered
            &&& action matches SubmitAction::Refuse(e)
            &&& errors::is_error(
                e,
                500,
                "rate limit check failed"@,
                submit::limit_entries(max_requests),
            )
        },
        (
            Stage::Enqueueing { headers, transaction_id, .. },
            SubmitEvent::Enqueued(Ok(position)),
        ) => {
            &&& after == Stage::Answered
            &&& action matches SubmitAction::StoreAndAnswer { transaction, response }
            &&& submit::stores(transaction, request, transaction_id)
            &&& accepts(
                response,
                transaction_id,
                position,
                response::header_entries(headers),
            )
        },
        (Stage::Enqueueing { headers, .. }, SubmitEvent::Enqueued(Err(_))) => {
            &&& after == Stage::Answered
            &&& action matches SubmitAction::Refuse(e)
            &&& errors::is_error(e, 500, "tx enqueing failed"@, response::header_entries(headers))
        },
        _ => false,
    }
}

/// Lets an allowed request go on under the id: its transaction goes into the queue.
pub fn begin_enqueue(
    request: &SubmitTransactionRequest,
    max_requests: u32,
    result: RateLimitResult,
    headers: HeaderMap,
    transaction_id: Uuid,
) -> (r: (Stage, SubmitAction))
    ensures
        r.0 == (Stage::Enqueueing { max_requests, result, headers, transaction_id }),
        r.1 matches SubmitAction::Enqueue { queue_name, data, priority } && queue_name@
            == submit::PRIORITY_QUEUE_BASE@ && data@ == transaction_id::uuid_text(
            transaction_id::uuid_bytes(transaction_id),
        ) && priority == priority_of(*request),
{
    let priority: i32 = match request.priority {
        Some(p) => p,
        None => 0,
    };
    let data = transaction_id::transaction_id_text(&transaction_id);
    (
        Stage::Enqueueing { max_requests, result, headers, transaction_id },
        SubmitAction::Enqueue {
            queue_name: submit::PRIORITY_QUEUE_BASE.to_owned(),
            data,
            priority,
        },
    )
}

/// Answers an accepted request.
pub fn accepted(transaction_id: Uuid, queue_position: i64, headers: HeaderMap) -> (r:
    ResponseWithHeaders<SubmitTransactionResponse>)
    requires
        submit::estimate_computable(queue_position),
    ensures
        accepts(r, transaction_id, queue_position, response::header_entries(headers)),
{
    let body = SubmitTransactionResponse {
        transaction_id,
        queue_position,
        estimated_processing_time_seconds: submit::estimated_processing_time_seconds(
            queue_position,
        ),
        status: "pending".to_owned(),
    };
    ResponseWithHeaders::new(200, headers, body)
}

/// Makes one step of a submission. Once the limit of the account is known, every
/// answer carries the header field that tells it; once the check has a result, also
/// those that tell what remains and when the limit resets.
pub fn handler(submission: Submission, event: SubmitEvent) -> (r: (Submission, SubmitAction))
    requires
        submission.wf(),
        awaits(submission.stage, event),
    ensures
        r.0.wf(),
        r.0.request == submission.request,
        is_step(submission.request, submission.stage, event, r.0.stage, r.1),
{
    let Submission { request, stage } = submission;
    let (after, action): (Stage, SubmitAction) = match (stage, event) {
        (Stage::Received, SubmitEvent::Received) => match submit::validate_submit_request(
            &request,
        ) {
            Ok(_) => (
                Stage::ReadingLimits,
                SubmitAction::ReadLimits {
                    account_id: request.account_id.clone(),
                    limit_type: submit::RL_BUCKET_SUBMIT_TX.to_owned(),
                },
            ),
            Err(e) => (Stage::Answered, SubmitAction::Refuse(e)),
        },
        (Stage::ReadingLimits, SubmitEvent::LimitsRead(row)) => match submit::get_rate_limit_props(
            row,
        ) {
            Ok((max_requests, window_seconds)) => (
                Stage::CheckingLimit { max_requests },
                SubmitAction::CheckRateLimit {
                    key: submit::rate_limit_account_key(request.account_id.as_str()),
                    max_requests,
                    window_seconds,
                },
            ),
            Err(e) => (Stage::Answered, SubmitAction::Refuse(e)),
        },
        (Stage::CheckingLimit { max_requests }, SubmitEvent::LimitChecked(checked)) => {
            match submit::apply_rate_limiting(max_requests, checked) {
                Ok((result, headers)) => begin_enqueue(
                    &request,
                    max_requests,
                    result,
                    headers,
                    transaction_id::new_transaction_id(),
                ),
                Err(e) => (Stage::Answered, SubmitAction::Refuse(e)),
            }
        },
        (
            Stage::Enqueueing { max_requests: _, result: _, headers, transaction_id },
            SubmitEvent::Enqueued(enqueued),
        ) => match submit::enqueue_and_position(enqueued) {
            Ok(position) => (
                Stage::Answered,
                SubmitAction::StoreAndAnswer {
                    transaction: submit::insert_transaction(&request, transaction_id),
                    response: accepted(transaction_id, position, headers),
                },
            ),
            Err(e) => (Stage::Answered, SubmitAction::Refuse(e.with_headers(headers))),
        },
        _ => unreached(),
    };
    (Submission { request, stage: after }, action)
}

} // verus!

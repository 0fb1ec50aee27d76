//! What the calls of a submission do, from what goes in to what comes out.

use crate::errors::{AppError, RedisError};
use crate::intake;
use crate::intake::{Stage, Submission, SubmitAction, SubmitEvent};
use crate::intake_laws;
use crate::queue_manager::{EnqueueAction, EnqueueEvent, QueueManager};
use crate::queueing_laws;
use crate::rate_limiter::RateLimitResult;
use crate::response;
use crate::response::ResponseWithHeaders;
use crate::submit;
use crate::submit::{
    DatabaseFailure, NewTransactionQueue, SubmitTransactionRequest, SubmitTransactionResponse,
};
use crate::text;
use crate::transaction_id;
use axum::http::HeaderMap;
use uuid::Uuid;
use vstd::prelude::*;
use vstd::utf8::*;

verus! {

/// The field of this name has one value, the numeral of `n`.
pub open spec fn tells(
    entries: Map<Seq<char>, Seq<Seq<u8>>>,
    name: Seq<char>,
    n: int,
) -> bool {
    &&& entries.dom().contains(name)
    &&& entries[name] == seq![encode_utf8(text::decimal(n))]
}

/// The fields tell the limit, what remains and when it resets, and nothing else.
pub open spec fn tells_all(
    entries: Map<Seq<char>, Seq<Seq<u8>>>,
    limit: int,
    remaining: int,
    reset_at: int,
) -> bool {
    &&& tells(entries, "x-ratelimit-limit"@, limit)
    &&& tells(entries, "x-ratelimit-remaining"@, remaining)
    &&& tells(entries, "x-ratelimit-reset"@, reset_at)
    &&& entries.dom() == set![
        "x-ratelimit-limit"@,
        "x-ratelimit-remaining"@,
        "x-ratelimit-reset"@,
    ]
}

/// The fields tell the limit and nothing else.
pub open spec fn tells_limit(entries: Map<Seq<char>, Seq<Seq<u8>>>, limit: int) -> bool {
    &&& tells(entries, "x-ratelimit-limit"@, limit)
    &&& entries.dom() == set!["x-ratelimit-limit"@]
}

/// An error with this status and this message, without fields.
pub open spec fn is_plain_error(e: AppError, status: int, message: Seq<char>) -> bool {
    &&& e.status == status
    &&& e.message@ == message
    &&& response::header_entries(e.headers).dom() == Set::<Seq<char>>::empty()
}

proof fn lemma_field_names()
    ensures
        "x-ratelimit-limit"@ != "x-ratelimit-remaining"@,
        "x-ratelimit-limit"@ != "x-ratelimit-reset"@,
        "x-ratelimit-remaining"@ != "x-ratelimit-reset"@,
{
    reveal_strlit("x-ratelimit-limit");
    reveal_strlit("x-ratelimit-remaining");
    reveal_strlit("x-ratelimit-reset");
    assert("x-ratelimit-limit"@.len() == 17);
    assert("x-ratelimit-remaining"@.len() == 21);
    assert("x-ratelimit-limit"@[12] != "x-ratelimit-reset"@[12]);
}

proof fn lemma_rate_limit_entries(limit: u32, result: RateLimitResult)
    ensures
        tells_all(
            submit::rate_limit_entries(limit, result),
            limit as int,
            result.remaining as int,
            result.reset_at as int,
        ),
        tells_limit(submit::limit_entries(limit), limit as int),
{
    lemma_field_names();
    assert(submit::rate_limit_entries(limit, result).dom() =~= set![
        "x-ratelimit-limit"@,
        "x-ratelimit-remaining"@,
        "x-ratelimit-reset"@,
    ]);
    assert(submit::limit_entries(limit).dom() =~= set!["x-ratelimit-limit"@]);
}

/// Header fields tell the limit as it is given, what remains of it and when it resets.
pub proof fn law_headers_tell_the_result(limit: u32, result: RateLimitResult, h: HeaderMap)
    requires
        call_ensures(submit::construct_rate_limit_headers, (limit, &result), h),
    ensures
        tells_all(
            response::header_entries(h),
            limit as int,
            result.remaining as int,
            result.reset_at as int,
        ),
{
    lemma_rate_limit_entries(limit, result);
}

/// A request is accepted exactly if its account id has, without the white space around
/// it, at least 1 and fewer than 255 characters, its data can be serialized, is not null
/// and takes less than 1048576 bytes, and its priority is from -1000 to 1000 or not
/// given. Otherwise the first fault in this order is named, with status 400.
pub proof fn law_requests_are_validated(
    request: SubmitTransactionRequest,
    r: Result<(), AppError>,
)
    requires
        call_ensures(submit::validate_submit_request, (&request,), r),
    ensures
        ({
            let id = text::trimmed(request.account_id@).len();
            let data = submit::json_text(request.transaction_data);
            let null = encode_utf8("null"@);
            &&& r is Ok <==> {
                &&& 0 < id < 255
                &&& data is Some && data->0 != null && data->0.len() < 1048576
                &&& request.priority is None || -1000 <= request.priority->0 <= 1000
            }
            &&& !(0 < id < 255) ==> r is Err && is_plain_error(
                r->Err_0,
                400,
                "Invalid account_id: must be 1-254 characters"@,
            )
            &&& 0 < id < 255 && data == Some(null) ==> r is Err && is_plain_error(
                r->Err_0,
                400,
                "transaction_data cannot be null"@,
            )
            &&& 0 < id < 255 && data is None ==> r is Err && is_plain_error(
                r->Err_0,
                400,
                "transaction_data contains unsupported or non-serializable values."@,
            )
            &&& 0 < id < 255 && data is Some && data->0 != null && data->0.len() >= 1048576
                ==> r is Err && is_plain_error(
                r->Err_0,
                400,
                "transaction_data is too large (max 1048575 bytes)."@,
            )
            &&& 0 < id < 255 && data is Some && data->0 != null && data->0.len() < 1048576
                && request.priority is Some && !(-1000 <= request.priority->0 <= 1000) ==> r is Err
                && is_plain_error(
                r->Err_0,
                400,
                "Invalid priority: must be between -1000 and 1000."@,
            )
        }),
{
}

/// Each part of the validation on its own accepts exactly what it is to accept.
pub proof fn law_parts_are_validated(
    account_id: &str,
    length: Option<usize>,
    priority: Option<i32>,
    id_told: Result<(), AppError>,
    length_told: Result<(), AppError>,
    priority_told: Result<(), AppError>,
)
    requires
        call_ensures(submit::check_account_id, (account_id,), id_told),
        call_ensures(submit::check_serialized, (length,), length_told),
        call_ensures(submit::check_priority, (priority,), priority_told),
    ensures
        id_told is Ok <==> 0 < text::trimmed(account_id@).len() < 255,
        id_told is Err ==> is_plain_error(
            id_told->Err_0,
            400,
            "Invalid account_id: must be 1-254 characters"@,
        ),
        length_told is Ok <==> length is Some && length->0 < 1048576,
        length_told is Err ==> is_plain_error(
            length_told->Err_0,
            400,
            if length is Some {
                "transaction_data is too large (max 1048575 bytes)."@
            } else {
                "transaction_data contains unsupported or non-serializable values."@
            },
        ),
        priority_told is Ok <==> priority is None || -1000 <= priority->0 <= 1000,
        priority_told is Err ==> is_plain_error(
            priority_told->Err_0,
            400,
            "Invalid priority: must be between -1000 and 1000."@,
        ),
{
}

/// An account's row gives its limit and its window as they are, whatever they are, but
/// at least 1 each. An account without a row has 100 requests in 60 seconds. Without an
/// answer of the database there is no limit.
pub proof fn law_limits_are_those_of_the_row(
    m: i32,
    w: i32,
    with_row: Result<(u32, u64), AppError>,
    without_row: Result<(u32, u64), AppError>,
    failed: Result<(u32, u64), AppError>,
)
    requires
        call_ensures(
            submit::get_rate_limit_props,
            (Ok::<Option<(i32, i32)>, DatabaseFailure>(Some((m, w))),),
            with_row,
        ),
        call_ensures(
            submit::get_rate_limit_props,
            (Ok::<Option<(i32, i32)>, DatabaseFailure>(None),),
            without_row,
        ),
        call_ensures(
            submit::get_rate_limit_props,
            (Err::<Option<(i32, i32)>, DatabaseFailure>(DatabaseFailure),),
            failed,
        ),
    ensures
        with_row matches Ok(p) && {
            &&& 1 <= m ==> p.0 == m
            &&& m < 1 ==> p.0 == 1
            &&& 1 <= w ==> p.1 == w
            &&& w < 1 ==> p.1 == 1
        },
        without_row matches Ok(p) && p.0 == 100 && p.1 == 60,
        failed matches Err(e) && is_plain_error(e, 500, "reading db failed"@),
{
    match failed {
        Err(e) => {
            assert(response::no_entries().dom() =~= Set::<Seq<char>>::empty());
        },
        Ok(_) => {},
    }
}

/// The requests of an account to this endpoint are counted under its own id, as it is.
pub proof fn law_accounts_have_keys_of_their_own(
    account1: &str,
    account2: &str,
    key1: String,
    key2: String,
)
    requires
        call_ensures(submit::rate_limit_account_key, (account1,), key1),
        call_ensures(submit::rate_limit_account_key, (account2,), key2),
    ensures
        key1@ == "rl:"@ + account1@ + ":api:v1:transactions:submit"@,
        key1@ == key2@ <==> account1@ == account2@,
{
    reveal_strlit(":");
    reveal_strlit("api:v1:transactions:submit");
    reveal_strlit(":api:v1:transactions:submit");
    assert(":"@ + "api:v1:transactions:submit"@ =~= ":api:v1:transactions:submit"@);
    assert(key1@ =~= "rl:"@ + account1@ + ":api:v1:transactions:submit"@);
    if key1@ == key2@ {
        let n = "rl:"@.len() as int;
        assert(key1@.len() == key2@.len());
        assert(key1@.subrange(n, n + account1@.len()) =~= account1@);
        assert(key2@.subrange(n, n + account2@.len()) =~= account2@);
    }
}

/// The outcome of a check: an allowed request goes on with its result, a refused one gets
/// 429, both with all that the check found. A failed check gets 500 with the limit.
pub proof fn law_outcome_of_a_check(
    max_requests: u32,
    result: RateLimitResult,
    failure: RedisError,
    checked: Result<(RateLimitResult, HeaderMap), AppError>,
    failed: Result<(RateLimitResult, HeaderMap), AppError>,
)
    requires
        call_ensures(
            submit::apply_rate_limiting,
            (max_requests, Ok::<RateLimitResult, RedisError>(result)),
            checked,
        ),
        call_ensures(
            submit::apply_rate_limiting,
            (max_requests, Err::<RateLimitResult, RedisError>(failure)),
            failed,
        ),
    ensures
        checked is Ok <==> result.allowed,
        checked matches Ok(pair) ==> pair.0 == result && tells_all(
            response::header_entries(pair.1),
            max_requests as int,
            result.remaining as int,
            result.reset_at as int,
        ),
        checked matches Err(e) ==> e.status == 429 && e.message@ == "Rate limit exceeded"@
            && tells_all(
            response::header_entries(e.headers),
            max_requests as int,
            result.remaining as int,
            result.reset_at as int,
        ),
        failed matches Err(e) && e.status == 500 && e.message@ == "rate limit check failed"@
            && tells_limit(response::header_entries(e.headers), max_requests as int),
{
    lemma_rate_limit_entries(max_requests, result);
}

/// The position of a transaction in the queue is the one that the queue gave.
pub proof fn law_outcome_of_queueing(
    position: i64,
    failure: RedisError,
    queued: Result<i64, AppError>,
    failed: Result<i64, AppError>,
)
    requires
        call_ensures(submit::enqueue_and_position, (Ok::<i64, RedisError>(position),), queued),
        call_ensures(submit::enqueue_and_position, (Err::<i64, RedisError>(failure),), failed),
    ensures
        queued == Ok::<i64, AppError>(position),
        failed matches Err(e) && is_plain_error(e, 500, "tx enqueing failed"@),
{
}

/// What is stored is the request as it came, pending, under its id, and what the database
/// gives back is handed on. A failure is told without its words.
pub proof fn law_requests_are_stored_as_they_came(
    request: SubmitTransactionRequest,
    id: Uuid,
    t: NewTransactionQueue,
    stored: Result<NewTransactionQueue, AppError>,
    failed: Result<NewTransactionQueue, AppError>,
)
    requires
        call_ensures(submit::insert_transaction, (&request, id), t),
        call_ensures(
            submit::read_insert::<NewTransactionQueue>,
            (Ok::<NewTransactionQueue, DatabaseFailure>(t),),
            stored,
        ),
        call_ensures(
            submit::read_insert::<NewTransactionQueue>,
            (Err::<NewTransactionQueue, DatabaseFailure>(DatabaseFailure),),
            failed,
        ),
    ensures
        stored matches Ok(row) && {
            &&& row.transaction_id == id
            &&& row.account_id@ == request.account_id@
            &&& submit::json_text(row.transaction_data) == submit::json_text(
                request.transaction_data,
            )
            &&& row.status@ == "pending"@
        },
        failed matches Err(e) && is_plain_error(e, 500, "db insertion failed"@),
{
}

/// The estimate for a position is 30 seconds for each transaction ahead, but no more than
/// 3600 seconds, and it can be had for every position of a queue.
pub proof fn law_estimates(position: i64, seconds: i64, told: bool)
    requires
        call_ensures(submit::estimated_processing_time_seconds, (position,), seconds),
        call_ensures(submit::is_estimate_computable, (position,), told),
    ensures
        position >= 1 ==> 0 <= seconds <= 3600,
        1 <= position <= 121 ==> seconds == 30 * (position - 1),
        121 <= position ==> seconds == 3600,
        position < 1 ==> seconds == 30 * (position - 1),
        0 <= position <= 307_445_734_561_825_860 ==> told && call_requires(
            submit::estimated_processing_time_seconds,
            (position,),
        ),
{
}

/// The answer to an accepted request names its transaction, its position and the seconds
/// that it waits: 30 for each transaction ahead, at most 3600. It is pending.
pub proof fn law_answer_to_an_accepted_request(
    id: Uuid,
    position: i64,
    headers: HeaderMap,
    r: ResponseWithHeaders<SubmitTransactionResponse>,
)
    requires
        call_ensures(intake::accepted, (id, position, headers), r),
    ensures
        r.status == 200,
        response::header_entries(r.headers) == response::header_entries(headers),
        r.body.transaction_id == id,
        r.body.queue_position == position,
        position <= 121 ==> r.body.estimated_processing_time_seconds == 30 * (position - 1),
        position >= 121 ==> r.body.estimated_processing_time_seconds == 3600,
        r.body.status@ == "pending"@,
{
}

/// A transaction goes into the queue with the priority that its request asks for, and
/// with 0 where it asks for none.
pub proof fn law_priority_is_as_asked(
    request: SubmitTransactionRequest,
    max_requests: u32,
    result: RateLimitResult,
    headers: HeaderMap,
    id: Uuid,
    r: (Stage, SubmitAction),
)
    requires
        call_ensures(intake::begin_enqueue, (&request, max_requests, result, headers, id), r),
    ensures
        r.1 matches SubmitAction::Enqueue { queue_name, data, priority } && {
            &&& queue_name@ == "transactions"@
            &&& data@ == transaction_id::uuid_text(transaction_id::uuid_bytes(id))
            &&& request.priority is Some ==> request.priority == Some(priority)
            &&& request.priority is None ==> priority == 0
        },
{
}

/// The course of a submission of `request`, made of calls of `handler`: from stage to
/// stage, each event the one that was awaited.
pub open spec fn is_handled(
    request: SubmitTransactionRequest,
    stages: Seq<Stage>,
    events: Seq<SubmitEvent>,
    actions: Seq<SubmitAction>,
) -> bool {
    &&& stages.len() == events.len() + 1
    &&& actions.len() == events.len()
    &&& stages[0] == Stage::Received
    &&& forall|i: int|
        0 <= i < events.len() ==> intake::awaits(stages[i], #[trigger] events[i]) && call_ensures(
            intake::handler,
            (Submission { request, stage: stages[i] }, events[i]),
            (Submission { request, stage: stages[i + 1] }, actions[i]),
        )
}

proof fn lemma_handled_is_a_course(
    request: SubmitTransactionRequest,
    stages: Seq<Stage>,
    events: Seq<SubmitEvent>,
    actions: Seq<SubmitAction>,
    i: int,
)
    requires
        is_handled(request, stages, events, actions),
        0 <= i < events.len(),
    ensures
        intake_laws::is_course(request, stages, events, actions),
        intake::awaits(stages[i], events[i]),
        intake::is_step(request, stages[i], events[i], stages[i + 1], actions[i]),
        stages[i] is Answered || intake_laws::steps_before(stages[i]) == i,
{
    assert forall|j: int| 0 <= j < events.len() implies intake::awaits(
        stages[j],
        #[trigger] events[j],
    ) && intake::is_step(request, stages[j], events[j], stages[j + 1], actions[j]) by {
        assert(call_ensures(
            intake::handler,
            (Submission { request, stage: stages[j] }, events[j]),
            (Submission { request, stage: stages[j + 1] }, actions[j]),
        ));
    }
    assert(intake::awaits(stages[i], events[i]));
    intake_laws::law_course_keeps_its_order(request, stages, events, actions, i);
}

/// A submission that comes in is refused at once for the first fault of its request, with
/// status 400; without a fault, the limits of its account for this endpoint are read.
pub proof fn law_submission_is_validated_first(
    request: SubmitTransactionRequest,
    stages: Seq<Stage>,
    events: Seq<SubmitEvent>,
    actions: Seq<SubmitAction>,
    r: Result<(), AppError>,
)
    requires
        is_handled(request, stages, events, actions),
        events.len() > 0,
        call_ensures(submit::validate_submit_request, (&request,), r),
    ensures
        events[0] is Received,
        match r {
            Err(e) => actions[0] matches SubmitAction::Refuse(told) && is_plain_error(
                told,
                400,
                e.message@,
            ) && stages[1] is Answered,
            Ok(_) => actions[0] matches SubmitAction::ReadLimits { account_id, limit_type }
                && account_id@ == request.account_id@ && limit_type@
                == "api:v1:transactions:submit"@ && stages[1] is ReadingLimits,
        },
{
    lemma_handled_is_a_course(request, stages, events, actions, 0);
    law_requests_are_validated(request, r);
}

/// The limit and the window that are checked are those of the account's row, as they are,
/// but at least 1 each, and 100 in 60 seconds without a row. They are checked for the
/// account as it is named. Every later answer tells that limit.
pub proof fn law_submission_is_checked_against_its_row(
    request: SubmitTransactionRequest,
    stages: Seq<Stage>,
    events: Seq<SubmitEvent>,
    actions: Seq<SubmitAction>,
    i: int,
)
    requires
        is_handled(request, stages, events, actions),
        1 < events.len(),
        1 <= i < events.len(),
    ensures
        events[1] matches SubmitEvent::LimitsRead(read) && match read {
            Err(_) => actions[1] matches SubmitAction::Refuse(e) && is_plain_error(
                e,
                500,
                "reading db failed"@,
            ),
            Ok(row) => actions[1] matches SubmitAction::CheckRateLimit {
                key,
                max_requests,
                window_seconds,
            } && {
                &&& key@ == "rl:"@ + request.account_id@ + ":api:v1:transactions:submit"@
                &&& row is None ==> max_requests == 100 && window_seconds == 60
                &&& row is Some ==> {
                    &&& (row->0).0 >= 1 ==> max_requests == (row->0).0
                    &&& (row->0).0 < 1 ==> max_requests == 1
                    &&& (row->0).1 >= 1 ==> window_seconds == (row->0).1
                    &&& (row->0).1 < 1 ==> window_seconds == 1
                }
                &&& intake_laws::is_answer(actions[i]) ==> tells(
                    intake_laws::answer_entries(actions[i]),
                    "x-ratelimit-limit"@,
                    max_requests as int,
                )
            },
        },
{
    lemma_handled_is_a_course(request, stages, events, actions, 0);
    lemma_handled_is_a_course(request, stages, events, actions, 1);
    reveal_strlit(":");
    reveal_strlit("api:v1:transactions:submit");
    reveal_strlit(":api:v1:transactions:submit");
    assert(":"@ + "api:v1:transactions:submit"@ =~= ":api:v1:transactions:submit"@);
    assert(submit::account_key(request.account_id@) =~= "rl:"@ + request.account_id@
        + ":api:v1:transactions:submit"@);
    match events[1] {
        SubmitEvent::LimitsRead(Ok(row)) => {
            if intake_laws::is_answer(actions[i]) {
                let limit = actions[1]->max_requests;
                assert(i >= 2);
                intake_laws::law_answers_tell_a_known_limit(
                    request,
                    stages,
                    events,
                    actions,
                    limit,
                    2,
                    i,
                );
            }
        },
        _ => {
            assert(response::no_entries().dom() =~= Set::<Seq<char>>::empty());
        },
    }
}

/// A submission goes into the queue exactly if its check allowed it, with the priority
/// that its request asks for, or 0 where it asks for none. Otherwise it is refused: with
/// 429 and all that the check found, or, if the check failed, with 500 and the limit.
pub proof fn law_submission_is_queued_as_asked(
    request: SubmitTransactionRequest,
    stages: Seq<Stage>,
    events: Seq<SubmitEvent>,
    actions: Seq<SubmitAction>,
)
    requires
        is_handled(request, stages, events, actions),
        2 < events.len(),
    ensures
        actions[1] is CheckRateLimit,
        events[2] matches SubmitEvent::LimitChecked(checked) && ({
            let limit = actions[1]->max_requests;
            match checked {
                Ok(result) => if result.allowed {
                    actions[2] matches SubmitAction::Enqueue { queue_name, data, priority } && {
                        &&& queue_name@ == "transactions"@
                        &&& request.priority is Some ==> request.priority == Some(priority)
                        &&& request.priority is None ==> priority == 0
                        &&& -1000 <= priority <= 1000
                        &&& stages[3] is Enqueueing
                        &&& data@ == transaction_id::uuid_text(
                            transaction_id::uuid_bytes(stages[3]->transaction_id),
                        )
                    }
                } else {
                    actions[2] matches SubmitAction::Refuse(e) && e.status == 429 && e.message@
                        == "Rate limit exceeded"@ && tells_all(
                        response::header_entries(e.headers),
                        limit as int,
                        result.remaining as int,
                        result.reset_at as int,
                    )
                },
                Err(_) => actions[2] matches SubmitAction::Refuse(e) && e.status == 500 && e.message@
                    == "rate limit check failed"@ && tells_limit(
                    response::header_entries(e.headers),
                    limit as int,
                ),
            }
        }),
{
    lemma_handled_is_a_course(request, stages, events, actions, 0);
    lemma_handled_is_a_course(request, stages, events, actions, 1);
    lemma_handled_is_a_course(request, stages, events, actions, 2);
    let limit = actions[1]->max_requests;
    match events[2] {
        SubmitEvent::LimitChecked(Ok(result)) => {
            lemma_rate_limit_entries(limit, result);
        },
        _ => {
            lemma_rate_limit_entries(
                limit,
                RateLimitResult { allowed: false, remaining: 0, reset_at: 0 },
            );
        },
    }
}

/// The end of a submission: queued at position `p`, it is answered with 200, its position
/// `p`, the seconds of 30 for each transaction ahead but at most 3600, and all that the
/// check found, while the request is stored as it came, pending, under the id that was
/// queued. If queueing failed, the answer is 500, with all that the check found.
pub proof fn law_submission_is_answered_with_its_place(
    request: SubmitTransactionRequest,
    stages: Seq<Stage>,
    events: Seq<SubmitEvent>,
    actions: Seq<SubmitAction>,
)
    requires
        is_handled(request, stages, events, actions),
        3 < events.len(),
    ensures
        events[2] matches SubmitEvent::LimitChecked(Ok(result)) && events[3] matches SubmitEvent::Enqueued(
            queued,
        ) && ({
            let limit = actions[1]->max_requests;
            match queued {
                Ok(p) => actions[3] matches SubmitAction::StoreAndAnswer { transaction, response: r }
                    && {
                    &&& r.status == 200
                    &&& r.body.queue_position == p
                    &&& 1 <= p <= 121 ==> r.body.estimated_processing_time_seconds == 30 * (p - 1)
                    &&& p >= 121 ==> r.body.estimated_processing_time_seconds == 3600
                    &&& p < 1 ==> r.body.estimated_processing_time_seconds == 30 * (p - 1)
                    &&& r.body.status@ == "pending"@
                    &&& tells_all(
                        response::header_entries(r.headers),
                        limit as int,
                        result.remaining as int,
                        result.reset_at as int,
                    )
                    &&& r.body.transaction_id == transaction.transaction_id
                    &&& actions[2] is Enqueue
                    &&& actions[2]->data@ == transaction_id::uuid_text(
                        transaction_id::uuid_bytes(transaction.transaction_id),
                    )
                    &&& transaction.account_id@ == request.account_id@
                    &&& submit::json_text(transaction.transaction_data) == submit::json_text(
                        request.transaction_data,
                    )
                    &&& transaction.status@ == "pending"@
                },
                Err(_) => actions[3] matches SubmitAction::Refuse(e) && e.status == 500 && e.message@
                    == "tx enqueing failed"@ && tells_all(
                    response::header_entries(e.headers),
                    limit as int,
                    result.remaining as int,
                    result.reset_at as int,
                ),
            }
        }),
{
    lemma_handled_is_a_course(request, stages, events, actions, 0);
    lemma_handled_is_a_course(request, stages, events, actions, 1);
    lemma_handled_is_a_course(request, stages, events, actions, 2);
    lemma_handled_is_a_course(request, stages, events, actions, 3);
    match events[2] {
        SubmitEvent::LimitChecked(Ok(result)) => {
            lemma_rate_limit_entries(actions[1]->max_requests, result);
        },
        _ => {},
    }
}

/// A submission can go on with whatever comes back: any answer of the database, any
/// outcome of the check, any failure of the queue and any position in a queue.
pub proof fn law_submission_can_go_on(
    request: SubmitTransactionRequest,
    stages: Seq<Stage>,
    events: Seq<SubmitEvent>,
    actions: Seq<SubmitAction>,
    event: SubmitEvent,
)
    requires
        is_handled(request, stages, events, actions),
        events.len() == 0 ==> event is Received,
        events.len() == 1 ==> event is LimitsRead,
        events.len() == 2 ==> event is LimitChecked,
        events.len() == 3 ==> event is Enqueued && (event->Enqueued_0 is Ok ==> 0
            <= event->Enqueued_0->Ok_0 <= 307_445_734_561_825_860),
        events.len() > 0 ==> !intake_laws::is_answer(actions.last()),
    ensures
        events.len() <= 3,
        call_requires(intake::handler, (Submission { request, stage: stages.last() }, event)),
{
    let n = events.len() as int;
    if n > 0 {
        lemma_handled_is_a_course(request, stages, events, actions, n - 1);
        intake_laws::law_client_is_answered_once(request, stages, events, actions, n - 1);
        intake_laws::law_course_keeps_its_order(request, stages, events, actions, n);
    }
}

/// The priority that a request asks for, 0 where it asks for none.
pub open spec fn asked(request: SubmitTransactionRequest) -> int {
    if request.priority is Some {
        request.priority->0 as int
    } else {
        0
    }
}

/// Of two submissions, the one that asks for the higher priority gets the lower score,
/// and so goes first, whenever they came. No priority counts as 0.
pub proof fn law_higher_priority_submission_goes_first<P>(
    queue: QueueManager<P>,
    queue_name: &str,
    request1: SubmitTransactionRequest,
    data1: &str,
    nanos1: u128,
    r1: (Stage, SubmitAction),
    score1: EnqueueAction,
    request2: SubmitTransactionRequest,
    data2: &str,
    nanos2: u128,
    r2: (Stage, SubmitAction),
    score2: EnqueueAction,
    max_requests: u32,
    result: RateLimitResult,
    headers: HeaderMap,
    id1: Uuid,
    id2: Uuid,
)
    requires
        call_ensures(intake::begin_enqueue, (&request1, max_requests, result, headers, id1), r1),
        call_ensures(intake::begin_enqueue, (&request2, max_requests, result, headers, id2), r2),
        call_ensures(
            QueueManager::<P>::enqueue_with_priority_pipe,
            (&queue, queue_name, data1, r1.1->priority, EnqueueEvent::Clock { nanos: nanos1 }),
            score1,
        ),
        call_ensures(
            QueueManager::<P>::enqueue_with_priority_pipe,
            (&queue, queue_name, data2, r2.1->priority, EnqueueEvent::Clock { nanos: nanos2 }),
            score2,
        ),
        request1.priority is Some ==> -1000 <= request1.priority->0 <= 1000,
        request2.priority is Some ==> -1000 <= request2.priority->0 <= 1000,
        asked(request1) > asked(request2),
    ensures
        score1 matches EnqueueAction::Score(s1) && score2 matches EnqueueAction::Score(s2)
            && s1.below(s2),
{
    queueing_laws::law_scores_order_the_queue(
        queue,
        queue_name,
        data1,
        r1.1->priority,
        nanos1,
        score1,
        data2,
        r2.1->priority,
        nanos2,
        score2,
    );
}

/// Errors have the status of their kind, the message as it is given, and no fields until
/// they are given some.
pub proof fn law_errors_say_what_they_are_given(
    message: &str,
    bad: AppError,
    many: AppError,
    internal: AppError,
    headers: HeaderMap,
    with: AppError,
)
    requires
        call_ensures(AppError::bad_request, (message,), bad),
        call_ensures(AppError::too_many_requests, (message,), many),
        call_ensures(AppError::internal_server_error, (message,), internal),
        call_ensures(AppError::with_headers, (internal, headers), with),
    ensures
        is_plain_error(bad, 400, message@),
        is_plain_error(many, 429, message@),
        is_plain_error(internal, 500, message@),
        with.status == 500,
        with.message@ == message@,
        with.headers == headers,
{
    assert(response::no_entries().dom() =~= Set::<Seq<char>>::empty());
}

/// The words of a failure of Redis end with its cause, and begin with its kind.
pub proof fn law_failures_are_described(
    cause: String,
    pool: String,
    redis: String,
    serialization: String,
    config: String,
)
    requires
        call_ensures(RedisError::message, (&RedisError::Pool(cause),), pool),
        call_ensures(RedisError::message, (&RedisError::Redis(cause),), redis),
        call_ensures(RedisError::message, (&RedisError::Serialization(cause),), serialization),
        call_ensures(RedisError::message, (&RedisError::Config(cause),), config),
    ensures
        pool@ == "Redis pool error: "@ + cause@,
        redis@ == "Redis error: "@ + cause@,
        serialization@ == "Serialization error: "@ + cause@,
        config@ == "Configuration error: "@ + cause@,
{
}

/// A submission starts with its request as it came, and the body of a request has room for
/// data of every accepted size.
pub proof fn law_submission_starts_with_its_request(
    request: SubmitTransactionRequest,
    submission: Submission,
)
    requires
        call_ensures(Submission::new, (request,), submission),
    ensures
        submission.request == request,
        submission.stage is Received,
        call_requires(intake::handler, (submission, SubmitEvent::Received)),
        submit::MAX_BODY_BYTES == 5 * 1048576,
{
}

} // verus!

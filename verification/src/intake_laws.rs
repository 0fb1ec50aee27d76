//! What holds of the intake as a whole.

use crate::commands;
use crate::intake;
use crate::intake::{Stage, Submission, SubmitAction, SubmitEvent};
use crate::queue_manager;
use crate::rate_limit_laws;
use crate::rate_limiter;
use crate::rate_limiter::RateLimitResult;
use crate::response;
use crate::submit;
use crate::submit::SubmitTransactionRequest;
use crate::text;
use crate::transaction_id;
use vstd::prelude::*;
use vstd::utf8::*;

verus! {

/// A request passes validation exactly if its account id has at least 1 and fewer than
/// 255 characters, its data is not null and takes less than 1 MB, and its priority, if
/// it has one, is from -1000 to 1000. Every other request is refused with status 400.
pub proof fn law_only_sound_requests_pass(
    account_id: Seq<char>,
    data: Option<Seq<u8>>,
    priority: Option<i32>,
)
    ensures
        submit::refusal(account_id, data, priority) is None <==> {
            &&& 1 <= text::trimmed(account_id).len() < 255
            &&& data matches Some(bytes) && bytes != encode_utf8("null"@) && bytes.len() < 1048576
            &&& priority matches Some(p) ==> -1000 <= p <= 1000
        },
        submit::refusal(account_id, data, priority) matches Some(why) ==> why.0 == 400,
{
}

/// The score of every request that passes validation can be computed.
pub proof fn law_valid_requests_can_be_scored(request: SubmitTransactionRequest)
    requires
        submit::is_valid(request),
    ensures
        queue_manager::score_computable(intake::priority_of(request)),
{
}

/// Whatever an account's row says, the only request in a window is allowed.
pub proof fn law_a_lone_request_is_allowed(row: Option<(i32, i32)>, sec: i64)
    ensures
        ({
            let props = submit::rate_limit_props(row);
            rate_limiter::pipe_result(props.0, props.1, sec, 1).allowed
        }),
{
}

/// Whatever an account's row says, its check can be computed at every server time
/// from the epoch to the year 2262.
pub proof fn law_checks_of_accounts_are_computable(
    row: Option<(i32, i32)>,
    sec: i64,
    usec: i64,
    count: i64,
)
    requires
        0 <= sec <= 9_223_372_035,
        0 <= usec < 1_000_000,
        0 <= count,
    ensures
        ({
            let props = submit::rate_limit_props(row);
            &&& rate_limiter::window_computable(sec, usec, props.1)
            &&& rate_limiter::pipe_result_computable(props.0, props.1, sec, count)
        }),
{
    let props = submit::rate_limit_props(row);
    rate_limit_laws::law_ordinary_checks_are_computable(props.0, props.1, sec, usec, count);
}

/// Different accounts are counted under different keys.
pub proof fn law_accounts_are_counted_apart(account1: Seq<char>, account2: Seq<char>)
    requires
        account1 != account2,
    ensures
        commands::words(
            seq![rate_limiter::rate_limit_key(submit::account_key(account1))],
        ) != commands::words(seq![rate_limiter::rate_limit_key(submit::account_key(account2))]),
{
    let k1 = submit::account_key(account1);
    let k2 = submit::account_key(account2);
    if k1 == k2 {
        assert(account1.len() == account2.len()) by {
            assert(k1.len() == k2.len());
        }
        let n = "rl:"@.len() as int;
        assert(k1.subrange(n, n + account1.len()) =~= account1);
        assert(k2.subrange(n, n + account2.len()) =~= account2);
    }
    rate_limit_laws::law_keys_have_sets_of_their_own(k1, k2);
}

/// The first in the queue waits for no one, nobody is told more than an hour, and
/// who stands further back is never told less.
pub proof fn law_estimates_grow_to_an_hour(position1: int, position2: int)
    requires
        1 <= position1 <= position2,
    ensures
        submit::estimate(1) == 0,
        0 <= submit::estimate(position1) <= submit::estimate(position2) <= 3600,
        submit::estimate(position1) < 3600 ==> submit::estimate(position1) == 30 * (position1 - 1),
{
}

/// The course of a submission of `request`: from stage to stage, each event the one
/// that was awaited.
pub open spec fn is_course(
    request: SubmitTransactionRequest,
    stages: Seq<Stage>,
    events: Seq<SubmitEvent>,
    actions: Seq<SubmitAction>,
) -> bool {
    &&& stages.len() == events.len() + 1
    &&& actions.len() == events.len()
    &&& stages[0] == Stage::Received
    &&& forall|i: int|
        0 <= i < events.len() ==> intake::awaits(stages[i], #[trigger] events[i])
            && intake::is_step(request, stages[i], events[i], stages[i + 1], actions[i])
}

/// `action` gives the client its answer.
pub open spec fn is_answer(action: SubmitAction) -> bool {
    action is StoreAndAnswer || action is Refuse
}

/// The header fields of an answer.
pub open spec fn answer_entries(action: SubmitAction) -> Map<Seq<char>, Seq<Seq<u8>>> {
    match action {
        SubmitAction::StoreAndAnswer { response, .. } => response::header_entries(response.headers),
        SubmitAction::Refuse(e) => response::header_entries(e.headers),
        _ => response::no_entries(),
    }
}

/// How many steps lie behind a submission at `stage`, unless it is answered.
pub open spec fn steps_before(stage: Stage) -> int {
    match stage {
        Stage::Received => 0,
        Stage::ReadingLimits => 1,
        Stage::CheckingLimit { .. } => 2,
        Stage::Enqueueing { .. } => 3,
        Stage::Answered => 4,
    }
}

/// At every stage of a course the submission is well-formed, and the stages follow
/// one another in their order.
pub proof fn law_course_keeps_its_order(
    request: SubmitTransactionRequest,
    stages: Seq<Stage>,
    events: Seq<SubmitEvent>,
    actions: Seq<SubmitAction>,
    i: int,
)
    requires
        is_course(request, stages, events, actions),
        0 <= i < stages.len(),
    ensures
        (Submission { request, stage: stages[i] }).wf(),
        stages[i] is Answered || steps_before(stages[i]) == i,
    decreases i,
{
    if i > 0 {
        law_course_keeps_its_order(request, stages, events, actions, i - 1);
        assert(intake::awaits(stages[i - 1], events[i - 1]));
        assert(intake::is_step(request, stages[i - 1], events[i - 1], stages[i], actions[i - 1]));
    }
}

/// A course has at most four steps, only its last gives an answer, and it ends with it.
pub proof fn law_client_is_answered_once(
    request: SubmitTransactionRequest,
    stages: Seq<Stage>,
    events: Seq<SubmitEvent>,
    actions: Seq<SubmitAction>,
    i: int,
)
    requires
        is_course(request, stages, events, actions),
        0 <= i < events.len(),
    ensures
        events.len() <= 4,
        is_answer(actions[i]) ==> i == events.len() - 1,
        is_answer(actions[i]) <==> stages[i + 1] is Answered,
        i == 3 ==> is_answer(actions[i]),
{
    let last = events.len() - 1;
    law_course_keeps_its_order(request, stages, events, actions, last);
    law_course_keeps_its_order(request, stages, events, actions, i);
    assert(intake::awaits(stages[last], events[last]));
    assert(intake::awaits(stages[i], events[i]));
    assert(intake::is_step(request, stages[i], events[i], stages[i + 1], actions[i]));
    if i < last {
        assert(intake::awaits(stages[i + 1], events[i + 1]));
    }
}

/// A transaction goes into the queue only if its request is valid and its limit
/// allowed it.
pub proof fn law_nothing_is_enqueued_unchecked(
    request: SubmitTransactionRequest,
    stages: Seq<Stage>,
    events: Seq<SubmitEvent>,
    actions: Seq<SubmitAction>,
    i: int,
)
    requires
        is_course(request, stages, events, actions),
        0 <= i < events.len(),
        actions[i] is Enqueue,
    ensures
        submit::is_valid(request),
        i == 2,
        events[2] matches SubmitEvent::LimitChecked(Ok(result)) && result.allowed,
{
    law_course_keeps_its_order(request, stages, events, actions, i);
    assert(intake::awaits(stages[i], events[i]));
    assert(intake::is_step(request, stages[i], events[i], stages[i + 1], actions[i]));
}

/// Once the check against the limit has a result, the client's answer carries it,
/// whether the request is accepted, refused or fails.
pub proof fn law_answers_tell_the_limit(
    request: SubmitTransactionRequest,
    stages: Seq<Stage>,
    events: Seq<SubmitEvent>,
    actions: Seq<SubmitAction>,
    max_requests: u32,
    result: RateLimitResult,
    j: int,
    i: int,
)
    requires
        is_course(request, stages, events, actions),
        0 <= j <= i < events.len(),
        stages[j] == (Stage::CheckingLimit { max_requests }),
        events[j] == SubmitEvent::LimitChecked(Ok(result)),
        is_answer(actions[i]),
    ensures
        answer_entries(actions[i]) == submit::rate_limit_entries(max_requests, result),
{
    law_course_keeps_its_order(request, stages, events, actions, j);
    law_course_keeps_its_order(request, stages, events, actions, i);
    assert(intake::is_step(request, stages[j], events[j], stages[j + 1], actions[j]));
    assert(intake::awaits(stages[i], events[i]));
    assert(intake::is_step(request, stages[i], events[i], stages[i + 1], actions[i]));
}

/// Once the limit of the account is known, the client's answer tells it, whatever
/// happens after that.
pub proof fn law_answers_tell_a_known_limit(
    request: SubmitTransactionRequest,
    stages: Seq<Stage>,
    events: Seq<SubmitEvent>,
    actions: Seq<SubmitAction>,
    max_requests: u32,
    j: int,
    i: int,
)
    requires
        is_course(request, stages, events, actions),
        0 <= j <= i < events.len(),
        stages[j] == (Stage::CheckingLimit { max_requests }),
        is_answer(actions[i]),
    ensures
        answer_entries(actions[i]).dom().contains("x-ratelimit-limit"@),
        answer_entries(actions[i])["x-ratelimit-limit"@] == response::one_value(
            text::decimal(max_requests as int),
        ),
{
    reveal_strlit("x-ratelimit-limit");
    reveal_strlit("x-ratelimit-remaining");
    reveal_strlit("x-ratelimit-reset");
    assert("x-ratelimit-limit"@.len() < "x-ratelimit-remaining"@.len());
    assert("x-ratelimit-limit"@[12] != "x-ratelimit-reset"@[12]);
    assert(intake::awaits(stages[j], events[j]));
    assert(intake::is_step(request, stages[j], events[j], stages[j + 1], actions[j]));
    match events[j] {
        SubmitEvent::LimitChecked(Ok(result)) => {
            law_answers_tell_the_limit(
                request,
                stages,
                events,
                actions,
                max_requests,
                result,
                j,
                i,
            );
        },
        _ => {
            law_client_is_answered_once(request, stages, events, actions, j);
        },
    }
}

/// The transaction that is stored, the one that the client is told of and the one in
/// the queue are the same.
pub proof fn law_answer_names_the_queued_transaction(
    request: SubmitTransactionRequest,
    stages: Seq<Stage>,
    events: Seq<SubmitEvent>,
    actions: Seq<SubmitAction>,
    i: int,
)
    requires
        is_course(request, stages, events, actions),
        0 <= i < events.len(),
        actions[i] is StoreAndAnswer,
    ensures
        i == 3,
        actions[3] matches SubmitAction::StoreAndAnswer { transaction, response } && {
            &&& response.body.transaction_id == transaction.transaction_id
            &&& actions[2] matches SubmitAction::Enqueue { data, .. }
            &&& data@ == transaction_id::uuid_text(
                transaction_id::uuid_bytes(transaction.transaction_id),
            )
        },
{
    law_course_keeps_its_order(request, stages, events, actions, i);
    assert(intake::awaits(stages[i], events[i]));
    assert(intake::is_step(request, stages[i], events[i], stages[i + 1], actions[i]));
    law_course_keeps_its_order(request, stages, events, actions, i - 1);
    assert(intake::awaits(stages[i - 1], events[i - 1]));
    assert(intake::is_step(request, stages[i - 1], events[i - 1], stages[i], actions[i - 1]));
}

} // verus!

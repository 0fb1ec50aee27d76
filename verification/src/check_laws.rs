//! What the calls of a check do, from what goes in to what comes out.

use crate::commands;
use crate::rate_limit_laws;
use crate::rate_limiter;
use crate::rate_limiter::{
    CheckAction, CheckEvent, CheckStage, PipeAction, PipeEvent, PipeStage, RateLimiter,
};
use crate::server;
use crate::server::Window;
use crate::text;
use deadpool_redis::redis::Pipeline;
use vstd::prelude::*;
use vstd::utf8::*;

verus! {

/// A check starts by asking the server for its time.
pub proof fn law_check_asks_for_the_time<P>(
    limiter: RateLimiter<P>,
    key: &str,
    max_requests: u32,
    window_seconds: u64,
    r: (PipeStage, PipeAction),
)
    requires
        call_ensures(
            RateLimiter::<P>::check_rate_limit_pipe,
            (&limiter, key, max_requests, window_seconds, PipeStage::Begin, PipeEvent::Start),
            r,
        ),
    ensures
        r.0 is AskingTime,
        r.1 matches PipeAction::Query(c) && commands::cmd_words(c) == seq![encode_utf8("TIME"@)],
{
    match r.1 {
        PipeAction::Query(c) => {
            assert(commands::cmd_words(c) =~= seq![encode_utf8("TIME"@)]);
        },
        _ => {},
    }
}

/// The bound up to which the first command of a transaction drops scores.
pub open spec fn dropped_up_to(p: Pipeline) -> int {
    server::number(commands::pipeline_commands(p)[0].0[3])
}

/// What the transaction of a check does to the set of its key, whatever the set holds:
/// what came in the last `window_seconds` stays, what came a millisecond or more before
/// that goes, the request is recorded, and the one answer that is kept is the number of
/// scores that are left up to the request. The set then expires after the window.
pub proof fn law_transaction_keeps_the_window<P>(
    limiter: RateLimiter<P>,
    key: &str,
    max_requests: u32,
    window_seconds: u64,
    sec: i64,
    usec: i64,
    r: (PipeStage, PipeAction),
    before: Window,
)
    requires
        call_ensures(
            RateLimiter::<P>::check_rate_limit_pipe,
            (
                &limiter,
                key,
                max_requests,
                window_seconds,
                PipeStage::AskingTime,
                PipeEvent::Time { sec, usec },
            ),
            r,
        ),
        0 <= usec,
        window_seconds <= i64::MAX,
    ensures
        r.0 == (PipeStage::Counting { sec }),
        ({
            let now = sec * 1_000_000_000 + usec * 1000;
            let k = encode_utf8("rate_limit:"@ + key@);
            let from = now - window_seconds * 1_000_000_000;
            &&& r.1 matches PipeAction::Run(p)
            &&& commands::pipeline_is_atomic(p)
            &&& from - 1_000_000 < dropped_up_to(p) <= from
            &&& forall|i: int|
                0 <= i < commands::pipeline_commands(p).len() ==> (
                #[trigger] commands::pipeline_commands(p)[i]).0[1] == k
            &&& server::run_all(before, k, commands::pipeline_commands(p)) == (
                Window {
                    scores: rate_limit_laws::recorded(before.scores, dropped_up_to(p), now),
                    ttl: Some(window_seconds as int),
                },
                seq![Some(rate_limit_laws::counted(before.scores, dropped_up_to(p), now) as int)],
            )
        }),
{
    let now = sec * 1_000_000_000 + usec * 1000;
    let k = encode_utf8("rate_limit:"@ + key@);
    let p = r.1->Run_0;
    let cs = commands::pipeline_commands(p);
    let start = dropped_up_to(p);
    let ms = sec * 1000 + usec / 1000 - window_seconds * 1000;
    server::lemma_names_differ();
    server::lemma_number(ms * 1_000_000);
    server::lemma_number(now);
    server::lemma_number(window_seconds as int);
    assert(window_seconds as i64 == window_seconds);
    assert(start == ms * 1_000_000);
    assert(cs.len() == 4);
    let c0 = cs.take(0);
    let c1 = cs.take(1);
    let c2 = cs.take(2);
    let c3 = cs.take(3);
    assert(cs.drop_last() =~= c3);
    assert(c3.drop_last() =~= c2);
    assert(c2.drop_last() =~= c1);
    assert(c1.drop_last() =~= c0);
    reveal_with_fuel(server::run_all, 5);
    let w1 = server::run(before, k, cs[0].0);
    let w2 = server::run(w1, k, cs[1].0);
    assert(server::run_all(before, k, c0) == (before, Seq::<Option<int>>::empty()));
    assert(server::run_all(before, k, c1) == (w1, Seq::<Option<int>>::empty()));
    assert(server::run_all(before, k, c2) == (w2, Seq::<Option<int>>::empty()));
    assert(server::number(encode_utf8("0.0"@)) == 0);
    assert(w1.scores =~= before.scores.filter(|x: int| !(0 <= x <= start)));
    assert(w2.scores =~= rate_limit_laws::recorded(before.scores, start, now));
    let n = server::count(w2, k, cs[2].0);
    assert(w2.scores.filter(
        |x: int| server::number(cs[2].0[2]) <= x <= server::number(cs[2].0[3]),
    ) =~= rate_limit_laws::recorded(before.scores, start, now).filter(
        |x: int| start <= x <= now,
    ));
    assert(server::run_all(before, k, c3) == (server::run(w2, k, cs[2].0), seq![n]));
}

/// The result of a transaction: allowed exactly while the count is within the limit,
/// with what is left of the limit, and reset when the window from now has passed.
pub proof fn law_transaction_result<P>(
    limiter: RateLimiter<P>,
    key: &str,
    max_requests: u32,
    window_seconds: u64,
    sec: i64,
    count: i64,
    r: (PipeStage, PipeAction),
)
    requires
        call_ensures(
            RateLimiter::<P>::check_rate_limit_pipe,
            (
                &limiter,
                key,
                max_requests,
                window_seconds,
                PipeStage::Counting { sec },
                PipeEvent::Counted { count },
            ),
            r,
        ),
        (sec as u64) + window_seconds <= u64::MAX,
    ensures
        r.0 is Over,
        r.1 matches PipeAction::Done(x) && {
            &&& x.allowed <==> count <= max_requests
            &&& 0 <= count && x.allowed ==> x.remaining + count == max_requests
            &&& !x.allowed ==> x.remaining == 0
            &&& x.reset_at - window_seconds == sec as u64
        },
{
}

/// A server time in nanoseconds.
pub open spec fn nanos(time: (i64, i64)) -> int {
    time.0 * 1_000_000_000 + time.1 * 1000
}

/// A check ended and the request is allowed.
pub open spec fn is_allowed(action: PipeAction) -> bool {
    action matches PipeAction::Done(result) && result.allowed
}

/// The server runs the transaction of a check of `key`.
pub open spec fn transacted(before: Window, key: Seq<char>, action: PipeAction) -> (
    Window,
    Seq<Option<int>>,
) {
    server::run_all(
        before,
        encode_utf8("rate_limit:"@ + key),
        commands::pipeline_commands(action->Run_0),
    )
}

proof fn lemma_sets(
    key: Seq<char>,
    asked: Seq<(PipeStage, PipeAction)>,
    sets: Seq<Window>,
    expired: Seq<bool>,
    ns: Seq<int>,
    starts: Seq<int>,
    j: int,
)
    requires
        0 <= j < sets.len(),
        sets[0].scores == Set::<int>::empty(),
        forall|k: int|
            0 < k < sets.len() ==> (#[trigger] sets[k]).scores == if expired[k] {
                Set::<int>::empty()
            } else {
                transacted(sets[k - 1], key, asked[k - 1].1).0.scores
            },
        forall|k: int|
            0 <= k < sets.len() ==> transacted(sets[k], key, #[trigger] asked[k].1).0.scores
                == rate_limit_laws::recorded(sets[k].scores, starts[k], ns[k]),
    ensures
        sets[j].scores == rate_limit_laws::scores_before(ns, starts, expired, j),
    decreases j,
{
    if j > 0 {
        lemma_sets(key, asked, sets, expired, ns, starts, j - 1);
        assert(transacted(sets[j - 1], key, asked[j - 1].1).0.scores == rate_limit_laws::recorded(
            sets[j - 1].scores,
            starts[j - 1],
            ns[j - 1],
        ));
    }
}

/// No window of `window_seconds` holds more allowed requests than the limit, and no
/// request is refused unless more than the limit came, with it, in the last
/// `window_seconds` and a millisecond. This is of the commands that are sent and the
/// results that come out.
///
/// `times` are the server times of the requests on one key, `asked[j]` what the check
/// of request `j` does at that time, and `done[j]` what it does with its count. `sets[j]`
/// is what the server holds under the key when the transaction of request `j` runs; where
/// `expired[j]`, the set has expired before. Each transaction is taken to run alone, at
/// the time that its request read.
pub proof fn law_limit_is_enforced_by_the_commands<P>(
    limiter: RateLimiter<P>,
    key: &str,
    max_requests: u32,
    window_seconds: u64,
    times: Seq<(i64, i64)>,
    asked: Seq<(PipeStage, PipeAction)>,
    sets: Seq<Window>,
    expired: Seq<bool>,
    counts: Seq<i64>,
    done: Seq<(PipeStage, PipeAction)>,
    i: int,
)
    requires
        1 <= window_seconds <= i64::MAX,
        0 <= i < times.len(),
        asked.len() == times.len(),
        sets.len() == times.len(),
        expired.len() == times.len(),
        counts.len() == times.len(),
        done.len() == times.len(),
        forall|j: int|
            0 <= j < times.len() ==> 0 <= (#[trigger] times[j]).0 && 0 <= times[j].1 < 1_000_000
                && times[j].0 + window_seconds <= u64::MAX,
        forall|j: int, k: int|
            0 <= j < k < times.len() ==> nanos(#[trigger] times[j]) < nanos(#[trigger] times[k]),
        forall|j: int|
            0 <= j < times.len() ==> call_ensures(
                RateLimiter::<P>::check_rate_limit_pipe,
                (
                    &limiter,
                    key,
                    max_requests,
                    window_seconds,
                    PipeStage::AskingTime,
                    PipeEvent::Time { sec: times[j].0, usec: times[j].1 },
                ),
                #[trigger] asked[j],
            ),
        sets[0].scores == Set::<int>::empty(),
        forall|j: int|
            0 < j < times.len() ==> (#[trigger] sets[j]).scores == if expired[j] {
                Set::<int>::empty()
            } else {
                transacted(sets[j - 1], key@, asked[j - 1].1).0.scores
            },
        !expired[0],
        forall|j: int|
            0 < j < times.len() && #[trigger] expired[j] ==> (transacted(
                sets[j - 1],
                key@,
                asked[j - 1].1,
            ).0.ttl matches Some(ttl) && nanos(times[j - 1]) + ttl * 1_000_000_000 <= nanos(
                times[j],
            )),
        forall|j: int|
            0 <= j < times.len() ==> transacted(sets[j], key@, asked[j].1).1[0] == Some(
                #[trigger] counts[j] as int,
            ),
        forall|j: int|
            0 <= j < times.len() ==> call_ensures(
                RateLimiter::<P>::check_rate_limit_pipe,
                (
                    &limiter,
                    key,
                    max_requests,
                    window_seconds,
                    asked[j].0,
                    PipeEvent::Counted { count: counts[j] },
                ),
                #[trigger] done[j],
            ),
    ensures
        ({
            let ns = times.map_values(|t: (i64, i64)| nanos(t));
            let allowed = Seq::new(done.len(), |j: int| is_allowed(done[j].1));
            let from = ns[i] - window_seconds * 1_000_000_000;
            &&& rate_limit_laws::recent_allowed(ns, allowed, i + 1, from) <= max_requests
            &&& rate_limit_laws::recent(ns, i + 1, from - 1_000_000) <= max_requests ==> allowed[i]
        }),
{
    let ns = times.map_values(|t: (i64, i64)| nanos(t));
    let allowed = Seq::new(done.len(), |j: int| is_allowed(done[j].1));
    let span = window_seconds * 1_000_000_000;
    let starts = asked.map_values(|a: (PipeStage, PipeAction)| dropped_up_to(a.1->Run_0));
    assert forall|j: int| 0 <= j < times.len() implies {
        let n = transacted(sets[j], key@, #[trigger] asked[j].1);
        &&& ns[j] - span - 1_000_000 < starts[j] <= ns[j] - span
        &&& n.0.scores == rate_limit_laws::recorded(sets[j].scores, starts[j], ns[j])
        &&& n.0.ttl == Some(window_seconds as int)
        &&& n.1[0] == Some(rate_limit_laws::counted(sets[j].scores, starts[j], ns[j]) as int)
        &&& asked[j].0 == (PipeStage::Counting { sec: times[j].0 })
    } by {
        assert(0 <= times[j].0);
        law_transaction_keeps_the_window(
            limiter,
            key,
            max_requests,
            window_seconds,
            times[j].0,
            times[j].1,
            asked[j],
            sets[j],
        );
    }
    assert forall|j: int, k: int| 0 <= j < k < ns.len() implies ns[j] < ns[k] by {
        assert(nanos(times[j]) < nanos(times[k]));
    }
    assert forall|j: int| 0 <= j < ns.len() implies 0 <= #[trigger] ns[j] by {
        assert(0 <= times[j].0);
    }
    assert forall|j: int| 0 <= j < ns.len() implies #[trigger] starts[j] <= ns[j] - span by {
        assert(transacted(sets[j], key@, asked[j].1).0.ttl == Some(window_seconds as int));
    }
    assert forall|j: int, k: int|
        0 <= j < k < ns.len() && #[trigger] expired[k] && #[trigger] allowed[j] implies ns[j] + span
        <= ns[k] by {
        assert(transacted(sets[k - 1], key@, asked[k - 1].1).0.ttl == Some(window_seconds as int));
        assert(nanos(times[k - 1]) + span <= nanos(times[k]));
        if j < k - 1 {
            assert(ns[j] < ns[k - 1]);
        }
    }
    assert forall|j: int| 0 <= j < ns.len() implies #[trigger] counts[j]
        == rate_limit_laws::counted_at(ns, starts, expired, j) by {
        lemma_sets(key@, asked, sets, expired, ns, starts, j);
        assert(transacted(sets[j], key@, asked[j].1).0.ttl == Some(window_seconds as int));
    }
    assert forall|j: int| 0 <= j < ns.len() implies (#[trigger] allowed[j] <==> counts[j]
        <= max_requests) by {
        assert(transacted(sets[j], key@, asked[j].1).0.ttl == Some(window_seconds as int));
        assert(0 <= times[j].0);
        assert((times[j].0 as u64) == times[j].0);
        let d = done[j];
        law_transaction_result(
            limiter,
            key,
            max_requests,
            window_seconds,
            times[j].0,
            counts[j],
            d,
        );
    }
    let c = counts.map_values(|n: i64| n as int);
    assert forall|j: int| 0 <= j < ns.len() implies rate_limit_laws::recent_allowed(
        ns,
        allowed,
        j + 1,
        ns[j] - span,
    ) <= #[trigger] c[j] by {
        assert(c[j] == counts[j]);
        rate_limit_laws::lemma_kept_are_counted(ns, starts, expired, allowed, span, j);
    }
    assert forall|j: int| 0 <= j < ns.len() && allowed[j] implies #[trigger] c[j]
        <= max_requests by {
        assert(c[j] == counts[j]);
        assert(allowed[j]);
    }
    rate_limit_laws::lemma_window_holds_limit(
        ns,
        c,
        allowed,
        max_requests as int,
        span,
        i + 1,
        ns[i] - span,
    );
    assert(counts[i] == rate_limit_laws::counted_at(ns, starts, expired, i));
    assert(transacted(sets[i], key@, asked[i].1).0.ttl == Some(window_seconds as int));
    rate_limit_laws::lemma_counted_are_recent(
        ns,
        starts,
        expired,
        i,
        ns[i] - span - 1_000_000,
    );
    assert(allowed[i] <==> counts[i] <= max_requests);
}

/// What a whole check command by command does to the set of its key, and its result.
///
/// It began `now_millis` milliseconds after the epoch, and the request has the score
/// `score`. What came in the `window_seconds` before the check began stays, what came
/// earlier goes, the request is recorded, and the answer that is read is the number of
/// scores that are left up to the request. The result is allowed exactly while the count
/// is within the limit, tells what is left of the limit, and resets when the window from
/// now has passed. The limit is taken as a signed number of 32 bits. Only an allowed request lets the set expire after the window.
pub proof fn law_stepwise_check_keeps_the_window<P>(
    limiter: RateLimiter<P>,
    key: &str,
    max_requests: u32,
    window_seconds: u64,
    now_millis: u128,
    window_start: String,
    now: String,
    score: int,
    count: i32,
    r0: (CheckStage, CheckAction),
    r1: (CheckStage, CheckAction),
    r2: (CheckStage, CheckAction),
    r3: (CheckStage, CheckAction),
    r4: (CheckStage, CheckAction),
    r5: (CheckStage, CheckAction),
    before: Window,
)
    requires
        call_ensures(
            RateLimiter::<P>::check_rate_limit,
            (
                &limiter,
                key,
                max_requests,
                window_seconds,
                CheckStage::Begin,
                CheckEvent::Start { now_millis },
            ),
            r0,
        ),
        r0.1 matches CheckAction::FormatScore(n) ==> window_start@ == text::decimal(n as int),
        call_ensures(
            RateLimiter::<P>::check_rate_limit,
            (
                &limiter,
                key,
                max_requests,
                window_seconds,
                r0.0,
                CheckEvent::Formatted { window_start },
            ),
            r1,
        ),
        now@ == text::decimal(score),
        call_ensures(
            RateLimiter::<P>::check_rate_limit,
            (&limiter, key, max_requests, window_seconds, r1.0, CheckEvent::Trimmed { now }),
            r2,
        ),
        call_ensures(
            RateLimiter::<P>::check_rate_limit,
            (&limiter, key, max_requests, window_seconds, r2.0, CheckEvent::Recorded),
            r3,
        ),
        call_ensures(
            RateLimiter::<P>::check_rate_limit,
            (&limiter, key, max_requests, window_seconds, r3.0, CheckEvent::Counted { count }),
            r4,
        ),
        count <= max_requests as i32 ==> call_ensures(
            RateLimiter::<P>::check_rate_limit,
            (&limiter, key, max_requests, window_seconds, r4.0, CheckEvent::Expired),
            r5,
        ),
        window_seconds * 1000 <= now_millis,
        (now_millis - window_seconds * 1000) * 1_000_000 <= u64::MAX,
        now_millis + window_seconds * 1000 <= u64::MAX,
        0 <= count,
    ensures
        max_requests <= i32::MAX ==> max_requests as i32 == max_requests,
        ({
            let k = encode_utf8("rate_limit:"@ + key@);
            let start = now_millis * 1_000_000 - window_seconds * 1_000_000_000;
            let scores = rate_limit_laws::recorded(before.scores, start, score);
            &&& r1.1 matches CheckAction::Query(c1)
            &&& r2.1 matches CheckAction::Query(c2)
            &&& r3.1 matches CheckAction::Query(c3)
            &&& server::run_all(
                before,
                k,
                seq![
                    (commands::cmd_words(c1), true),
                    (commands::cmd_words(c2), true),
                    (commands::cmd_words(c3), false),
                ],
            ) == (
                Window { scores, ttl: before.ttl },
                seq![Some(rate_limit_laws::counted(before.scores, start, score) as int)],
            )
            &&& count <= max_requests as i32 ==> {
                &&& r4.1 matches CheckAction::Query(c4)
                &&& server::run(Window { scores, ttl: before.ttl }, k, commands::cmd_words(c4))
                    == (Window { scores, ttl: Some(window_seconds as int) })
                &&& r5.0 is Over
                &&& r5.1 matches CheckAction::Done(x)
                &&& x.allowed
                &&& x.remaining + count == max_requests as i32
                &&& x.reset_at - window_seconds == now_millis / 1000
            }
            &&& count > max_requests as i32 ==> {
                &&& r4.0 is Over
                &&& r4.1 matches CheckAction::Done(x)
                &&& !x.allowed
                &&& x.remaining == 0
                &&& x.reset_at - window_seconds == now_millis / 1000
            }
        }),
{
    let k = encode_utf8("rate_limit:"@ + key@);
    let start = now_millis * 1_000_000 - window_seconds * 1_000_000_000;
    assert(now_millis as u64 == now_millis);
    assert(window_seconds as i64 == window_seconds);
    server::lemma_names_differ();
    server::lemma_number(start);
    server::lemma_number(score);
    server::lemma_number(window_seconds as int);
    let c1 = (commands::cmd_words(r1.1->Query_0), true);
    let c2 = (commands::cmd_words(r2.1->Query_0), true);
    let c3 = (commands::cmd_words(r3.1->Query_0), false);
    let cs = seq![c1, c2, c3];
    assert(cs.drop_last() =~= seq![c1, c2]);
    assert(seq![c1, c2].drop_last() =~= seq![c1]);
    assert(seq![c1].drop_last() =~= Seq::empty());
    reveal_with_fuel(server::run_all, 4);
    let w1 = server::run(before, k, c1.0);
    let w2 = server::run(w1, k, c2.0);
    assert(server::number(encode_utf8("0.0"@)) == 0);
    assert(w1.scores =~= before.scores.filter(|x: int| !(0 <= x <= start)));
    assert(w2.scores =~= rate_limit_laws::recorded(before.scores, start, score));
    assert(w2.scores.filter(|x: int| server::number(c3.0[2]) <= x <= server::number(c3.0[3]))
        =~= rate_limit_laws::recorded(before.scores, start, score).filter(
        |x: int| start <= x <= score,
    ));
    assert(server::run_all(before, k, seq![c1]) == (w1, Seq::<Option<int>>::empty()));
    assert(server::run_all(before, k, seq![c1, c2]) == (w2, Seq::<Option<int>>::empty()));
}

/// Ordinary checks can be made: windows below two to the power of 31 seconds, at every
/// server time from the epoch to the year 2262, with every count from 0 on.
pub proof fn law_ordinary_checks_can_be_made<P>(
    limiter: RateLimiter<P>,
    key: &str,
    max_requests: u32,
    window_seconds: u64,
    sec: i64,
    usec: i64,
    count: i64,
    window_told: bool,
    result_told: bool,
)
    requires
        window_seconds < 0x8000_0000,
        0 <= sec <= 9_223_372_035,
        0 <= usec < 1_000_000,
        0 <= count,
        call_ensures(rate_limiter::is_window_computable, (sec, usec, window_seconds), window_told),
        call_ensures(
            rate_limiter::is_pipe_result_computable,
            (max_requests, window_seconds, sec, count),
            result_told,
        ),
    ensures
        call_requires(
            RateLimiter::<P>::check_rate_limit_pipe,
            (&limiter, key, max_requests, window_seconds, PipeStage::Begin, PipeEvent::Start),
        ),
        call_requires(
            RateLimiter::<P>::check_rate_limit_pipe,
            (
                &limiter,
                key,
                max_requests,
                window_seconds,
                PipeStage::AskingTime,
                PipeEvent::Time { sec, usec },
            ),
        ),
        call_requires(
            RateLimiter::<P>::check_rate_limit_pipe,
            (
                &limiter,
                key,
                max_requests,
                window_seconds,
                PipeStage::Counting { sec },
                PipeEvent::Counted { count },
            ),
        ),
        window_told,
        result_told,
{
    assert(window_seconds as i64 == window_seconds);
}

/// Ordinary checks command by command can be made: from 1970 to 2554, with every window
/// that began after the epoch, and every count from 0 on.
pub proof fn law_ordinary_stepwise_checks_can_be_made<P>(
    limiter: RateLimiter<P>,
    key: &str,
    max_requests: u32,
    window_seconds: u64,
    now_millis: u128,
    count: i32,
    window_told: bool,
    result_told: bool,
)
    requires
        window_seconds * 1000 <= now_millis <= 18_446_744_073_709,
        0 <= count,
        call_ensures(
            rate_limiter::is_system_window_computable,
            (now_millis, window_seconds),
            window_told,
        ),
        call_ensures(
            rate_limiter::is_system_result_computable,
            (max_requests, window_seconds, now_millis, count),
            result_told,
        ),
    ensures
        call_requires(
            RateLimiter::<P>::check_rate_limit,
            (
                &limiter,
                key,
                max_requests,
                window_seconds,
                CheckStage::Begin,
                CheckEvent::Start { now_millis },
            ),
        ),
        call_requires(
            RateLimiter::<P>::check_rate_limit,
            (
                &limiter,
                key,
                max_requests,
                window_seconds,
                CheckStage::Counting { now_millis },
                CheckEvent::Counted { count },
            ),
        ),
        window_told,
        result_told,
{
    assert(now_millis as u64 == now_millis);
}

} // verus!

//! Sliding-window rate limiting over a Redis sorted set.
//!
//! Each key has a sorted set that holds one member per request, scored by the
//! time of the request. A check drops the members that have left the window,
//! records the request, counts what is in the window and compares the count with
//! the limit.
//!
//! A check is a dialogue. It begins at the first stage. The caller hands in the
//! stage and what happened (an event), and gets back the next stage and what to do
//! next (an action), until the action is the result. An error of the server ends
//! the dialogue.

use crate::commands;
use crate::text;
use deadpool_redis::redis::{Cmd, Pipeline};
use vstd::pervasive::unreached;
use vstd::prelude::*;

verus! {

/// What a check found.
#[derive(Debug, Clone, Copy)]
pub struct RateLimitResult {
    pub allowed: bool,
    pub remaining: u32,
    pub reset_at: u64,
}

/// Checks requests against a limit. `pool` gives the connections to the server.
pub struct RateLimiter<P> {
    pub pool: P,
}

/// How far a check that runs as one transaction has come.
#[derive(Debug)]
pub enum PipeStage {
    /// Nothing is done yet.
    Begin,
    /// The server is asked for its time.
    AskingTime,
    /// The transaction runs. The check began in second `sec` of the server's clock.
    Counting { sec: i64 },
    /// The result is there.
    Over,
}

/// What happened in a check that runs as one transaction.
#[derive(Debug)]
pub enum PipeEvent {
    /// The check begins.
    Start,
    /// The server answered `TIME`: seconds, and microseconds within the second.
    Time { sec: i64, usec: i64 },
    /// The transaction counted so many requests.
    Counted { count: i64 },
}

/// What to do next in a check that runs as one transaction.
pub enum PipeAction {
    /// Send the command.
    Query(Cmd),
    /// Run the pipeline.
    Run(Pipeline),
    /// The check is over.
    Done(RateLimitResult),
}

/// How far a check that sends its commands one by one has come. It began
/// `now_millis` milliseconds after the epoch.
#[derive(Debug)]
pub enum CheckStage {
    /// Nothing is done yet.
    Begin,
    /// The score at the start of the window is written as text.
    Formatting { now_millis: u128 },
    /// The members before the window are dropped.
    Trimming { now_millis: u128, window_start: String },
    /// The request is recorded, with the score `now`.
    Recording { now_millis: u128, window_start: String, now: String },
    /// The requests in the window are counted.
    Counting { now_millis: u128 },
    /// The expiry of the set is put off.
    Expiring { result: RateLimitResult },
    /// The result is there.
    Over,
}

/// What happened in a check that sends its commands one by one.
#[derive(Debug)]
pub enum CheckEvent {
    /// The check begins, so many milliseconds after the epoch.
    Start { now_millis: u128 },
    /// The text of the score that was asked for.
    Formatted { window_start: String },
    /// The members before the window are gone. `now` is the text of the score of
    /// this moment: the nanoseconds since the epoch.
    Trimmed { now: String },
    /// The request is recorded.
    Recorded,
    /// The server counted the requests in the window.
    Counted { count: i32 },
    /// The expiry is put off.
    Expired,
}

/// What to do next in a check that sends its commands one by one.
pub enum CheckAction {
    /// Write the number as the text of a score.
    FormatScore(u64),
    /// Send the command.
    Query(Cmd),
    /// The check is over.
    Done(RateLimitResult),
}

/// `n` fits into a signed number of 64 bits.
pub open spec fn in_i64(n: int) -> bool {
    i64::MIN <= n <= i64::MAX
}

/// `n / d`, rounded toward zero.
pub open spec fn truncated_div(n: int, d: int) -> int {
    if n >= 0 {
        n / d
    } else {
        -((-n) / d)
    }
}

/// The key of the sorted set that belongs to `key`.
pub open spec fn rate_limit_key(key: Seq<char>) -> Seq<char> {
    "rate_limit:"@ + key
}

/// A server time in milliseconds.
pub open spec fn time_ms(sec: int, usec: int) -> int {
    sec * 1000 + truncated_div(usec, 1000)
}

/// A server time in nanoseconds: the score and the member of a request.
pub open spec fn time_ns(sec: int, usec: int) -> int {
    sec * 1_000_000_000 + usec * 1000
}

/// The start of the window, in nanoseconds on a whole millisecond. `window` is the
/// length of the window in seconds.
pub open spec fn window_start_ns(sec: int, usec: int, window: int) -> int {
    (time_ms(sec, usec) - window * 1000) * 1_000_000
}

/// The window that ends at a server time can be computed in 64 bits.
pub open spec fn window_computable(sec: i64, usec: i64, window_seconds: u64) -> bool {
    let window = window_seconds as i64;
    &&& in_i64(sec * 1000)
    &&& in_i64(time_ms(sec as int, usec as int))
    &&& in_i64(window * 1000)
    &&& in_i64(time_ms(sec as int, usec as int) - window * 1000)
    &&& in_i64(window_start_ns(sec as int, usec as int, window as int))
    &&& in_i64(sec * 1_000_000_000)
    &&& in_i64(usec * 1000)
    &&& in_i64(time_ns(sec as int, usec as int))
}

/// The commands of the transaction: drop what has left the window, record the
/// request, count the window, let the set expire with it. Only the count is kept.
pub open spec fn window_commands(
    key: Seq<char>,
    window_seconds: u64,
    sec: i64,
    usec: i64,
) -> Seq<(Seq<Seq<u8>>, bool)> {
    let k = rate_limit_key(key);
    let window = (window_seconds as i64) as int;
    let start = text::decimal(window_start_ns(sec as int, usec as int, window));
    let now = text::decimal(time_ns(sec as int, usec as int));
    seq![
        commands::dropped(seq!["ZREMRANGEBYSCORE"@, k, "0.0"@, start]),
        commands::dropped(seq!["ZADD"@, k, now, now]),
        commands::kept(seq!["ZCOUNT"@, k, start, now]),
        commands::dropped(seq!["EXPIRE"@, k, text::decimal(window)]),
    ]
}

/// The result of a count can be computed in 64 bits.
pub open spec fn pipe_result_computable(
    max_requests: u32,
    window_seconds: u64,
    sec: i64,
    count: i64,
) -> bool {
    &&& count <= max_requests ==> in_i64(max_requests - count)
    &&& (sec as u64) + window_seconds <= u64::MAX
}

/// The result of a check that began in second `sec` and counted `count` requests.
pub open spec fn pipe_result(
    max_requests: u32,
    window_seconds: u64,
    sec: i64,
    count: i64,
) -> RateLimitResult {
    RateLimitResult {
        allowed: count <= max_requests,
        remaining: if count <= max_requests {
            (max_requests - count) as u32
        } else {
            0
        },
        reset_at: ((sec as u64) + window_seconds) as u64,
    }
}

/// The start of the window that ends `now_millis` milliseconds after the epoch can
/// be computed in 64 bits without a sign.
pub open spec fn system_window_computable(now_millis: u128, window_seconds: u64) -> bool {
    let now = now_millis as u64;
    &&& window_seconds * 1000 <= now
    &&& (now - window_seconds * 1000) * 1_000_000 <= u64::MAX
}

/// The start of the window that ends `now_millis` milliseconds after the epoch, in
/// nanoseconds.
pub open spec fn system_window_start(now_millis: u128, window_seconds: u64) -> int {
    ((now_millis as u64) - window_seconds * 1000) * 1_000_000
}

/// The result of a count can be computed.
pub open spec fn system_result_computable(
    max_requests: u32,
    window_seconds: u64,
    now_millis: u128,
    count: i32,
) -> bool {
    &&& count <= max_requests as i32 ==> (max_requests as i32) - count <= i32::MAX
    &&& (now_millis as u64) + window_seconds * 1000 <= u64::MAX
}

/// The result of a check that began `now_millis` milliseconds after the epoch and
/// counted `count` requests. The limit is taken as a signed number of 32 bits.
pub open spec fn system_result(
    max_requests: u32,
    window_seconds: u64,
    now_millis: u128,
    count: i32,
) -> RateLimitResult {
    RateLimitResult {
        allowed: count <= max_requests as i32,
        remaining: if count <= max_requests as i32 {
            ((max_requests as i32) - count) as u32
        } else {
            0
        },
        reset_at: (((now_millis as u64) + window_seconds * 1000) / 1000) as u64,
    }
}

/// `event` is what a check at `stage` waits for, with numbers that can be computed with.
pub open spec fn pipe_awaits(
    max_requests: u32,
    window_seconds: u64,
    stage: PipeStage,
    event: PipeEvent,
) -> bool {
    match (stage, event) {
        (PipeStage::Begin, PipeEvent::Start) => true,
        (PipeStage::AskingTime, PipeEvent::Time { sec, usec }) => window_computable(
            sec,
            usec,
            window_seconds,
        ),
        (PipeStage::Counting { sec }, PipeEvent::Counted { count }) => pipe_result_computable(
            max_requests,
            window_seconds,
            sec,
            count,
        ),
        _ => false,
    }
}

/// `event` takes a check of `key` from the stage `before` to the stage `after`, and
/// `action` is what to do next.
pub open spec fn is_pipe_step(
    key: Seq<char>,
    max_requests: u32,
    window_seconds: u64,
    before: PipeStage,
    event: PipeEvent,
    after: PipeStage,
    action: PipeAction,
) -> bool {
    match (before, event) {
        (PipeStage::Begin, PipeEvent::Start) => {
            &&& after == PipeStage::AskingTime
            &&& action matches PipeAction::Query(c)
            &&& commands::cmd_words(c) == commands::words(seq!["TIME"@])
        },
        (PipeStage::AskingTime, PipeEvent::Time { sec, usec }) => {
            &&& after == (PipeStage::Counting { sec })
            &&& action matches PipeAction::Run(p)
            &&& commands::pipeline_is_atomic(p)
            &&& commands::pipeline_commands(p) == window_commands(key, window_seconds, sec, usec)
        },
        (PipeStage::Counting { sec }, PipeEvent::Counted { count }) => {
            &&& after == PipeStage::Over
            &&& action == PipeAction::Done(pipe_result(max_requests, window_seconds, sec, count))
        },
        _ => false,
    }
}

/// `event` is what a check at `stage` waits for, with numbers that can be computed with.
pub open spec fn check_awaits(
    max_requests: u32,
    window_seconds: u64,
    stage: CheckStage,
    event: CheckEvent,
) -> bool {
    match (stage, event) {
        (CheckStage::Begin, CheckEvent::Start { now_millis }) => system_window_computable(
            now_millis,
            window_seconds,
        ),
        (CheckStage::Formatting { .. }, CheckEvent::Formatted { .. }) => true,
        (CheckStage::Trimming { .. }, CheckEvent::Trimmed { .. }) => true,
        (CheckStage::Recording { .. }, CheckEvent::Recorded) => true,
        (CheckStage::Counting { now_millis }, CheckEvent::Counted { count }) => {
            system_result_computable(max_requests, window_seconds, now_millis, count)
        },
        (CheckStage::Expiring { .. }, CheckEvent::Expired) => true,
        _ => false,
    }
}

/// `event` takes a check of `key` from the stage `before` to the stage `after`, and
/// `action` is what to do next.
pub open spec fn is_check_step(
    key: Seq<char>,
    max_requests: u32,
    window_seconds: u64,
    before: CheckStage,
    event: CheckEvent,
    after: CheckStage,
    action: CheckAction,
) -> bool {
    let k = rate_limit_key(key);
    match (before, event) {
        (CheckStage::Begin, CheckEvent::Start { now_millis }) => {
            &&& after == (CheckStage::Formatting { now_millis })
            &&& action matches CheckAction::FormatScore(n)
            &&& n == system_window_start(now_millis, window_seconds)
        },
        (CheckStage::Formatting { now_millis }, CheckEvent::Formatted { window_start }) => {
            &&& after == (CheckStage::Trimming { now_millis, window_start })
            &&& action matches CheckAction::Query(c)
            &&& commands::cmd_words(c) == commands::words(
                seq!["ZREMRANGEBYSCORE"@, k, "0.0"@, window_start@],
            )
        },
        (CheckStage::Trimming { now_millis, window_start }, CheckEvent::Trimmed { now }) => {
            &&& after == (CheckStage::Recording { now_millis, window_start, now })
            &&& action matches CheckAction::Query(c)
            &&& commands::cmd_words(c) == commands::words(seq!["ZADD"@, k, now@, now@])
        },
        (CheckStage::Recording { now_millis, window_start, now }, CheckEvent::Recorded) => {
            &&& after == (CheckStage::Counting { now_millis })
            &&& action matches CheckAction::Query(c)
            &&& commands::cmd_words(c) == commands::words(
                seq!["ZCOUNT"@, k, window_start@, now@],
            )
        },
        (CheckStage::Counting { now_millis }, CheckEvent::Counted { count }) => {
            let result = system_result(max_requests, window_seconds, now_millis, count);
            if result.allowed {
                &&& after == (CheckStage::Expiring { result })
                &&& action matches CheckAction::Query(c)
                &&& commands::cmd_words(c) == commands::words(
                    seq!["EXPIRE"@, k, text::decimal((window_seconds as i64) as int)],
                )
            } else {
                &&& after == CheckStage::Over
                &&& action == CheckAction::Done(result)
            }
        },
        (CheckStage::Expiring { result }, CheckEvent::Expired) => {
            &&& after == CheckStage::Over
            &&& action == CheckAction::Done(result)
        },
        _ => false,
    }
}

/// Whether the window that ends at a server time can be computed.
pub fn is_window_computable(sec: i64, usec: i64, window_seconds: u64) -> (b: bool)
    ensures
        b == window_computable(sec, usec, window_seconds),
{
    let low: i128 = i64::MIN as i128;
    let high: i128 = i64::MAX as i128;
    let s: i128 = sec as i128;
    let u: i128 = usec as i128;
    let w: i128 = (window_seconds as i64) as i128;
    let now_ms: i128 = s * 1000 + (usec / 1000) as i128;
    let start: i128 = (now_ms - w * 1000) * 1_000_000;
    let now_ns: i128 = s * 1_000_000_000 + u * 1000;
    low <= s * 1000 && s * 1000 <= high && low <= now_ms && now_ms <= high && low <= w * 1000
        && w * 1000 <= high && low <= now_ms - w * 1000 && now_ms - w * 1000 <= high && low <= start
        && start <= high && low <= s * 1_000_000_000 && s * 1_000_000_000 <= high && low <= u * 1000
        && u * 1000 <= high && low <= now_ns && now_ns <= high
}

/// Whether the result of a count can be computed.
pub fn is_pipe_result_computable(
    max_requests: u32,
    window_seconds: u64,
    sec: i64,
    count: i64,
) -> (b: bool)
    ensures
        b == pipe_result_computable(max_requests, window_seconds, sec, count),
{
    (count > max_requests as i64 || max_requests as i128 - count as i128 <= i64::MAX as i128)
        && sec as u64 <= u64::MAX - window_seconds
}

/// Whether the start of the window that ends at a system time can be computed.
pub fn is_system_window_computable(now_millis: u128, window_seconds: u64) -> (b: bool)
    ensures
        b == system_window_computable(now_millis, window_seconds),
{
    let now: u128 = (now_millis as u64) as u128;
    let w: u128 = window_seconds as u128 * 1000;
    w <= now && (now - w) * 1_000_000 <= u64::MAX as u128
}

/// Whether the result of a count can be computed.
pub fn is_system_result_computable(
    max_requests: u32,
    window_seconds: u64,
    now_millis: u128,
    count: i32,
) -> (b: bool)
    ensures
        b == system_result_computable(max_requests, window_seconds, now_millis, count),
{
    let limit: i32 = max_requests as i32;
    let now: u128 = (now_millis as u64) as u128;
    (count > limit || limit as i64 - count as i64 <= i32::MAX as i64) && now + window_seconds as u128
        * 1000 <= u64::MAX as u128
}

fn remove_before(key: &str, start: &str) -> (c: Cmd)
    ensures
        commands::cmd_words(c) == commands::words(
            seq!["ZREMRANGEBYSCORE"@, key@, "0.0"@, start@],
        ),
{
    let mut c = commands::cmd("ZREMRANGEBYSCORE");
    commands::arg(&mut c, key);
    commands::arg(&mut c, "0.0");
    commands::arg(&mut c, start);
    assert(commands::cmd_words(c) =~= commands::words(
        seq!["ZREMRANGEBYSCORE"@, key@, "0.0"@, start@],
    ));
    c
}

fn window_pipeline(key: &str, window_seconds: u64, sec: i64, usec: i64) -> (p: Pipeline)
    requires
        window_computable(sec, usec, window_seconds),
    ensures
        commands::pipeline_is_atomic(p),
        commands::pipeline_commands(p) == window_commands(key@, window_seconds, sec, usec),
{
    let now_ms: i64 = sec * 1000 + usec / 1000;
    let window_start: i64 = (now_ms - window_seconds as i64 * 1000) * 1_000_000;
    let current: i64 = sec * 1_000_000_000 + usec * 1000;
    let k = text::join("rate_limit:", key);
    let start = text::decimal_text(window_start as i128);
    let now = text::decimal_text(current as i128);
    let mut p = commands::pipe();
    commands::atomic(&mut p);
    commands::add_command(&mut p, remove_before(k.as_str(), start.as_str()));
    commands::ignore(&mut p);
    commands::add_command(&mut p, commands::zadd(k.as_str(), now.as_str(), now.as_str()));
    commands::ignore(&mut p);
    commands::add_command(&mut p, commands::zcount(k.as_str(), start.as_str(), now.as_str()));
    commands::add_command(&mut p, commands::expire(k.as_str(), window_seconds as i64));
    commands::ignore(&mut p);
    assert(commands::pipeline_commands(p) =~= window_commands(key@, window_seconds, sec, usec));
    p
}

impl<P> RateLimiter<P> {
    pub fn new(pool: P) -> (limiter: Self)
        ensures
            limiter.pool == pool,
    {
        Self { pool }
    }

    /// One step of a check by the server's clock, in one transaction. The dialogue
    /// asks for the time, runs the transaction and compares its count with the limit.
    pub fn check_rate_limit_pipe(
        &self,
        key: &str,
        max_requests: u32,
        window_seconds: u64,
        stage: PipeStage,
        event: PipeEvent,
    ) -> (r: (PipeStage, PipeAction))
        requires
            pipe_awaits(max_requests, window_seconds, stage, event),
        ensures
            is_pipe_step(key@, max_requests, window_seconds, stage, event, r.0, r.1),
    {
        match (stage, event) {
            (PipeStage::Begin, PipeEvent::Start) => (
                PipeStage::AskingTime,
                PipeAction::Query(commands::cmd("TIME")),
            ),
            (PipeStage::AskingTime, PipeEvent::Time { sec, usec }) => (
                PipeStage::Counting { sec },
                PipeAction::Run(window_pipeline(key, window_seconds, sec, usec)),
            ),
            (PipeStage::Counting { sec }, PipeEvent::Counted { count }) => {
                let allowed = count <= max_requests as i64;
                let remaining: u32 = if allowed {
                    (max_requests as i64 - count) as u32
                } else {
                    0
                };
                (
                    PipeStage::Over,
                    PipeAction::Done(
                        RateLimitResult {
                            allowed,
                            remaining,
                            reset_at: sec as u64 + window_seconds,
                        },
                    ),
                )
            },
            _ => unreached(),
        }
    }

    /// One step of a check by the system's clock, command by command. A refused
    /// request leaves the expiry of the set as it was.
    pub fn check_rate_limit(
        &self,
        key: &str,
        max_requests: u32,
        window_seconds: u64,
        stage: CheckStage,
        event: CheckEvent,
    ) -> (r: (CheckStage, CheckAction))
        requires
            check_awaits(max_requests, window_seconds, stage, event),
        ensures
            is_check_step(key@, max_requests, window_seconds, stage, event, r.0, r.1),
    {
        let k = text::join("rate_limit:", key);
        match (stage, event) {
            (CheckStage::Begin, CheckEvent::Start { now_millis }) => {
                let current_time: u64 = now_millis as u64;
                let window_start: u64 = current_time - window_seconds * 1000;
                (
                    CheckStage::Formatting { now_millis },
                    CheckAction::FormatScore(window_start * 1_000_000),
                )
            },
            (CheckStage::Formatting { now_millis }, CheckEvent::Formatted { window_start }) => {
                let c = remove_before(k.as_str(), window_start.as_str());
                (CheckStage::Trimming { now_millis, window_start }, CheckAction::Query(c))
            },
            (CheckStage::Trimming { now_millis, window_start }, CheckEvent::Trimmed { now }) => {
                let c = commands::zadd(k.as_str(), now.as_str(), now.as_str());
                (CheckStage::Recording { now_millis, window_start, now }, CheckAction::Query(c))
            },
            (CheckStage::Recording { now_millis, window_start, now }, CheckEvent::Recorded) => {
                let c = commands::zcount(k.as_str(), window_start.as_str(), now.as_str());
                (CheckStage::Counting { now_millis }, CheckAction::Query(c))
            },
            (CheckStage::Counting { now_millis }, CheckEvent::Counted { count }) => {
                let current_time: u64 = now_millis as u64;
                let reset_at: u64 = (current_time + window_seconds * 1000) / 1000;
                let limit: i32 = max_requests as i32;
                if count > limit {
                    (
                        CheckStage::Over,
                        CheckAction::Done(
                            RateLimitResult { allowed: false, remaining: 0, reset_at },
                        ),
                    )
                } else {
                    let result = RateLimitResult {
                        allowed: true,
                        remaining: (limit - count) as u32,
                        reset_at,
                    };
                    let c = commands::expire(k.as_str(), window_seconds as i64);
                    (CheckStage::Expiring { result }, CheckAction::Query(c))
                }
            },
            (CheckStage::Expiring { result }, CheckEvent::Expired) => (
                CheckStage::Over,
                CheckAction::Done(result),
            ),
            _ => unreached(),
        }
    }
}

} // verus!

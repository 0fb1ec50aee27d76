//! What holds of the rate limiter as a whole.

use crate::commands;
use crate::rate_limiter;
use crate::rate_limiter::{
    CheckAction, CheckEvent, CheckStage, PipeAction, PipeEvent, PipeStage,
};
use crate::text;
use vstd::prelude::*;

verus! {

/// How many of the first `n` times lie after `from`.
pub open spec fn recent(times: Seq<int>, n: int, from: int) -> int
    decreases n,
{
    if n <= 0 {
        0
    } else {
        recent(times, n - 1, from) + if times[n - 1] > from {
            1int
        } else {
            0
        }
    }
}

/// How many of the first `n` times lie after `from` and belong to an allowed request.
pub open spec fn recent_allowed(times: Seq<int>, allowed: Seq<bool>, n: int, from: int) -> int
    decreases n,
{
    if n <= 0 {
        0
    } else {
        recent_allowed(times, allowed, n - 1, from) + if times[n - 1] > from && allowed[n - 1] {
            1int
        } else {
            0
        }
    }
}

proof fn lemma_recent_allowed_grows(
    times: Seq<int>,
    allowed: Seq<bool>,
    n: int,
    from1: int,
    from2: int,
)
    requires
        from1 <= from2,
    ensures
        recent_allowed(times, allowed, n, from2) <= recent_allowed(times, allowed, n, from1),
    decreases n,
{
    if n > 0 {
        lemma_recent_allowed_grows(times, allowed, n - 1, from1, from2);
    }
}

pub proof fn lemma_window_holds_limit(
    times: Seq<int>,
    counts: Seq<int>,
    allowed: Seq<bool>,
    limit: int,
    span: int,
    n: int,
    from: int,
)
    requires
        0 <= limit,
        0 <= n <= times.len(),
        times.len() == counts.len(),
        times.len() == allowed.len(),
        forall|j: int, k: int| 0 <= j <= k < times.len() ==> times[j] <= times[k],
        forall|j: int|
            0 <= j < times.len() ==> recent_allowed(times, allowed, j + 1, times[j] - span)
                <= #[trigger] counts[j],
        forall|j: int| 0 <= j < times.len() && allowed[j] ==> #[trigger] counts[j] <= limit,
        n > 0 ==> times[n - 1] - span <= from,
    ensures
        recent_allowed(times, allowed, n, from) <= limit,
    decreases n,
{
    if n > 0 {
        if times[n - 1] > from && allowed[n - 1] {
            lemma_recent_allowed_grows(times, allowed, n, times[n - 1] - span, from);
            assert(counts[n - 1] <= limit);
            assert(recent_allowed(times, allowed, (n - 1) + 1, times[n - 1] - span)
                <= counts[n - 1]);
        } else {
            lemma_window_holds_limit(times, counts, allowed, limit, span, n - 1, from);
        }
    }
}

/// The scores of the requests among the first `n` that lie after `from`.
pub open spec fn recent_set(times: Seq<int>, n: int, from: int) -> Set<int>
    decreases n,
{
    if n <= 0 {
        Set::empty()
    } else if times[n - 1] > from {
        recent_set(times, n - 1, from).insert(times[n - 1])
    } else {
        recent_set(times, n - 1, from)
    }
}

proof fn lemma_recent_set(times: Seq<int>, n: int, from: int)
    requires
        0 <= n <= times.len(),
        forall|j: int, k: int| 0 <= j < k < times.len() ==> times[j] < times[k],
    ensures
        recent_set(times, n, from).finite(),
        recent_set(times, n, from).len() == recent(times, n, from),
        forall|x: int|
            recent_set(times, n, from).contains(x) ==> x > from && (n > 0 && x <= times[n - 1]),
    decreases n,
{
    if n > 0 {
        lemma_recent_set(times, n - 1, from);
        if n > 1 {
            assert(times[n - 2] < times[n - 1]);
        }
    }
}

proof fn lemma_recent_set_shrinks(times: Seq<int>, n: int, from1: int, from2: int)
    requires
        from1 <= from2,
    ensures
        forall|x: int| #[trigger]
            recent_set(times, n, from2).contains(x) <==> recent_set(times, n, from1).contains(x) && x
                > from2,
    decreases n,
{
    if n > 0 {
        lemma_recent_set_shrinks(times, n - 1, from1, from2);
        assert forall|x: int| #[trigger]
            recent_set(times, n, from2).contains(x) <==> recent_set(times, n, from1).contains(x) && x
                > from2 by {
            assert(recent_set(times, n - 1, from2).contains(x) <==> recent_set(
                times,
                n - 1,
                from1,
            ).contains(x) && x > from2);
        }
    }
}

proof fn lemma_recent_set_nonnegative(times: Seq<int>, n: int, from: int)
    requires
        0 <= n <= times.len(),
        forall|j: int| 0 <= j < times.len() ==> 0 <= #[trigger] times[j],
    ensures
        forall|x: int| #[trigger] recent_set(times, n, from).contains(x) ==> 0 <= x,
    decreases n,
{
    if n > 0 {
        lemma_recent_set_nonnegative(times, n - 1, from);
        assert forall|x: int| #[trigger] recent_set(times, n, from).contains(x) implies 0 <= x by {
            assert(x == times[n - 1] || recent_set(times, n - 1, from).contains(x));
        }
    }
}

/// The scores of the allowed requests among the first `n` that lie after `from`.
pub open spec fn allowed_set(times: Seq<int>, allowed: Seq<bool>, n: int, from: int) -> Set<int>
    decreases n,
{
    if n <= 0 {
        Set::empty()
    } else if times[n - 1] > from && allowed[n - 1] {
        allowed_set(times, allowed, n - 1, from).insert(times[n - 1])
    } else {
        allowed_set(times, allowed, n - 1, from)
    }
}

proof fn lemma_allowed_set(
    times: Seq<int>,
    allowed: Seq<bool>,
    n: int,
    from: int,
    all: Set<int>,
)
    requires
        0 <= n <= times.len(),
        forall|j: int, k: int| 0 <= j < k < times.len() ==> times[j] < times[k],
        forall|i: int|
            0 <= i < n && allowed[i] && times[i] > from ==> all.contains(#[trigger] times[i]),
    ensures
        allowed_set(times, allowed, n, from).finite(),
        allowed_set(times, allowed, n, from).len() == recent_allowed(times, allowed, n, from),
        allowed_set(times, allowed, n, from).subset_of(all),
        forall|x: int|
            allowed_set(times, allowed, n, from).contains(x) ==> n > 0 && x <= times[n - 1],
    decreases n,
{
    if n > 0 {
        lemma_allowed_set(times, allowed, n - 1, from, all);
        if n > 1 {
            assert(times[n - 2] < times[n - 1]);
        }
    }
}

/// The scores in a key's sorted set after a check: it drops the scores from 0 to the
/// start of its window and adds its own.
pub open spec fn recorded(scores: Set<int>, start: int, now: int) -> Set<int> {
    scores.filter(|x: int| !(0 <= x <= start)).insert(now)
}

/// What a check then counts: the scores from the start of its window to its own.
pub open spec fn counted(scores: Set<int>, start: int, now: int) -> nat {
    recorded(scores, start, now).filter(|x: int| start <= x <= now).len()
}

/// The scores in a key's sorted set when check `j` runs. Check `i` has its window from
/// `starts[i]` and its score `times[i]`; where `expired[i]`, the set has expired before
/// it.
pub open spec fn scores_before(
    times: Seq<int>,
    starts: Seq<int>,
    expired: Seq<bool>,
    j: int,
) -> Set<int>
    decreases j,
{
    if j <= 0 || expired[j] {
        Set::empty()
    } else {
        recorded(
            scores_before(times, starts, expired, j - 1),
            starts[j - 1],
            times[j - 1],
        )
    }
}

/// What check `j` counts.
pub open spec fn counted_at(
    times: Seq<int>,
    starts: Seq<int>,
    expired: Seq<bool>,
    j: int,
) -> nat {
    counted(scores_before(times, starts, expired, j), starts[j], times[j])
}

/// Each check finds in the set the scores of its last `span` that belong to requests
/// in `kept`, if the set expires only `span` after the last of these.
proof fn lemma_scores_are_kept(
    times: Seq<int>,
    starts: Seq<int>,
    expired: Seq<bool>,
    kept: Seq<bool>,
    span: int,
    j: int,
)
    requires
        0 <= j < times.len(),
        forall|i: int, k: int| 0 <= i < k < times.len() ==> times[i] < times[k],
        forall|i: int| 0 <= i < times.len() ==> #[trigger] starts[i] <= times[i] - span,
        forall|i: int, k: int|
            0 <= i < k < times.len() && #[trigger] expired[k] && #[trigger] kept[i] ==> times[i]
                + span <= times[k],
    ensures
        scores_before(times, starts, expired, j).finite(),
        forall|x: int| #[trigger]
            scores_before(times, starts, expired, j).contains(x) ==> j > 0 && x <= times[j - 1],
        forall|i: int|
            0 <= i < j && kept[i] && times[i] > times[j] - span ==> scores_before(
                times,
                starts,
                expired,
                j,
            ).contains(#[trigger] times[i]),
    decreases j,
{
    let now = scores_before(times, starts, expired, j);
    if j > 0 && !expired[j] {
        lemma_scores_are_kept(times, starts, expired, kept, span, j - 1);
        let before = scores_before(times, starts, expired, j - 1);
        let start = starts[j - 1];
        before.lemma_len_filter(|x: int| !(0 <= x <= start));
        assert(times[j - 1] < times[j]);
        if j > 1 {
            assert(times[j - 2] < times[j - 1]);
        }
        assert forall|x: int| #[trigger] now.contains(x) implies j > 0 && x <= times[j - 1] by {
            assert(x == times[j - 1] || before.contains(x));
        }
        assert forall|i: int|
            0 <= i < j && kept[i] && times[i] > times[j] - span implies now.contains(
            #[trigger] times[i],
        ) by {
            if i < j - 1 {
                assert(times[i] > times[j - 1] - span);
                assert(before.contains(times[i]));
            }
        }
    }
}

pub proof fn lemma_kept_are_counted(
    times: Seq<int>,
    starts: Seq<int>,
    expired: Seq<bool>,
    kept: Seq<bool>,
    span: int,
    j: int,
)
    requires
        0 <= j < times.len(),
        0 <= span,
        forall|i: int, k: int| 0 <= i < k < times.len() ==> times[i] < times[k],
        forall|i: int| 0 <= i < times.len() ==> #[trigger] starts[i] <= times[i] - span,
        forall|i: int, k: int|
            0 <= i < k < times.len() && #[trigger] expired[k] && #[trigger] kept[i] ==> times[i]
                + span <= times[k],
    ensures
        recent_allowed(times, kept, j + 1, times[j] - span) <= counted_at(
            times,
            starts,
            expired,
            j,
        ),
{
    lemma_scores_are_kept(times, starts, expired, kept, span, j);
    let before = scores_before(times, starts, expired, j);
    let start = starts[j];
    let now = times[j];
    before.lemma_len_filter(|x: int| !(0 <= x <= start));
    recorded(before, start, now).lemma_len_filter(|x: int| start <= x <= now);
    let all = recorded(before, start, now).filter(|x: int| start <= x <= now);
    assert forall|i: int| 0 <= i < j + 1 && kept[i] && times[i] > now - span implies all.contains(
        #[trigger] times[i],
    ) by {
        if i < j {
            assert(before.contains(times[i]));
            assert(times[i] < times[j]);
        }
    }
    lemma_allowed_set(times, kept, j + 1, now - span, all);
    vstd::set_lib::lemma_len_subset(allowed_set(times, kept, j + 1, now - span), all);
}

proof fn lemma_scores_are_times(
    times: Seq<int>,
    starts: Seq<int>,
    expired: Seq<bool>,
    j: int,
    from: int,
    x: int,
)
    requires
        0 <= j < times.len(),
        scores_before(times, starts, expired, j).contains(x),
        x > from,
    ensures
        recent_set(times, j, from).contains(x),
    decreases j,
{
    if x != times[j - 1] {
        lemma_scores_are_times(times, starts, expired, j - 1, from, x);
    }
}

/// A check counts no more than the requests that came after `from`, if its window starts
/// later.
pub proof fn lemma_counted_are_recent(
    times: Seq<int>,
    starts: Seq<int>,
    expired: Seq<bool>,
    j: int,
    from: int,
)
    requires
        0 <= j < times.len(),
        forall|i: int, k: int| 0 <= i < k < times.len() ==> times[i] < times[k],
        from < starts[j],
        from < times[j],
    ensures
        counted_at(times, starts, expired, j) <= recent(times, j + 1, from),
{
    let start = starts[j];
    let now = times[j];
    let before = scores_before(times, starts, expired, j);
    let all = recorded(before, start, now).filter(|x: int| start <= x <= now);
    assert forall|x: int| all.contains(x) implies recent_set(times, j + 1, from).contains(x) by {
        if x != now {
            lemma_scores_are_times(times, starts, expired, j, from, x);
        }
    }
    lemma_recent_set(times, j + 1, from);
    vstd::set_lib::lemma_len_subset(all, recent_set(times, j + 1, from));
}

/// The server times in nanoseconds.
pub open spec fn in_ns(times: Seq<(i64, i64)>) -> Seq<int> {
    times.map_values(|t: (i64, i64)| rate_limiter::time_ns(t.0 as int, t.1 as int))
}

/// The starts of the windows of requests at server times, in nanoseconds.
pub open spec fn window_starts(times: Seq<(i64, i64)>, window_seconds: u64) -> Seq<int> {
    times.map_values(
        |t: (i64, i64)|
            rate_limiter::window_start_ns(t.0 as int, t.1 as int, (window_seconds as i64) as int),
    )
}

/// Server times from the epoch on, in order and no two the same.
pub open spec fn in_order(times: Seq<(i64, i64)>) -> bool {
    &&& forall|j: int| 0 <= j < times.len() ==> 0 <= (#[trigger] times[j]).0 && 0 <= times[j].1
    &&& forall|j: int, k: int|
        0 <= j < k < times.len() ==> #[trigger] in_ns(times)[j] < #[trigger] in_ns(times)[k]
}

/// Every transaction lets the set expire `window_seconds` later: where it has expired
/// before a request, no request came in the last `window_seconds`.
pub open spec fn expires_with_the_window(
    times: Seq<(i64, i64)>,
    window_seconds: u64,
    expired: Seq<bool>,
) -> bool {
    forall|j: int|
        0 <= j < times.len() && #[trigger] expired[j] ==> j > 0 && in_ns(times)[j - 1]
            + window_seconds * 1_000_000_000 <= in_ns(times)[j]
}

proof fn lemma_windows_of_transactions(
    times: Seq<(i64, i64)>,
    window_seconds: u64,
    expired: Seq<bool>,
)
    requires
        1 <= window_seconds <= i64::MAX,
        in_order(times),
        expires_with_the_window(times, window_seconds, expired),
    ensures
        ({
            let ns = in_ns(times);
            let starts = window_starts(times, window_seconds);
            let span = window_seconds * 1_000_000_000;
            &&& forall|j: int| 0 <= j < ns.len() ==> 0 <= #[trigger] ns[j]
            &&& forall|j: int| 0 <= j < ns.len() ==> #[trigger] starts[j] <= ns[j] - span
            &&& forall|j: int, k: int|
                0 <= j <= k < ns.len() ==> #[trigger] starts[j] <= #[trigger] starts[k]
            &&& forall|i: int, k: int|
                0 <= i < k < ns.len() && #[trigger] expired[k] ==> #[trigger] ns[i] + span <= ns[k]
        }),
{
    let ns = in_ns(times);
    let starts = window_starts(times, window_seconds);
    let span = window_seconds * 1_000_000_000;
    assert forall|j: int| 0 <= j < ns.len() implies 0 <= #[trigger] ns[j] by {
        assert(0 <= times[j].0 && 0 <= times[j].1);
    }
    assert forall|j: int| 0 <= j < ns.len() implies #[trigger] starts[j] <= ns[j] - span by {
        assert(0 <= times[j].0 && 0 <= times[j].1);
    }
    assert forall|j: int, k: int| 0 <= j <= k < ns.len() implies #[trigger] starts[j]
        <= #[trigger] starts[k] by {
        assert(0 <= times[j].0 && 0 <= times[j].1);
        assert(0 <= times[k].0 && 0 <= times[k].1);
        if j < k {
            assert(ns[j] < ns[k]);
        }
    }
    assert forall|i: int, k: int|
        0 <= i < k < ns.len() && #[trigger] expired[k] implies #[trigger] ns[i] + span <= ns[k] by {
        if i < k - 1 {
            assert(ns[i] < ns[k - 1]);
        }
    }
}

/// When the set of a key expires, only scores are lost that lie outside the last
/// `window_seconds` of the next request and of every later one.
pub proof fn law_expiry_drops_only_what_is_past(
    times: Seq<(i64, i64)>,
    window_seconds: u64,
    expired: Seq<bool>,
    j: int,
    k: int,
    score: int,
)
    requires
        1 <= window_seconds <= i64::MAX,
        in_order(times),
        expires_with_the_window(times, window_seconds, expired),
        0 < j <= k < times.len(),
        expired[j],
        ({
            let ns = in_ns(times);
            let starts = window_starts(times, window_seconds);
            recorded(
                scores_before(ns, starts, expired, j - 1),
                starts[j - 1],
                ns[j - 1],
            ).contains(score)
        }),
    ensures
        score <= in_ns(times)[k] - window_seconds * 1_000_000_000,
{
    let ns = in_ns(times);
    let starts = window_starts(times, window_seconds);
    let span = window_seconds * 1_000_000_000;
    lemma_windows_of_transactions(times, window_seconds, expired);
    let kept = Seq::new(ns.len(), |i: int| true);
    lemma_scores_are_kept(ns, starts, expired, kept, span, j - 1);
    let before = scores_before(ns, starts, expired, j - 1);
    assert(score == ns[j - 1] || before.contains(score));
    if j > 1 {
        assert(ns[j - 2] < ns[j - 1]);
    }
    if j < k {
        assert(ns[j] < ns[k]);
    }
}

proof fn lemma_unexpired_set(
    ns: Seq<int>,
    starts: Seq<int>,
    expired: Seq<bool>,
    j: int,
)
    requires
        0 <= j < ns.len(),
        forall|i: int, k: int| 0 <= i < k < ns.len() ==> ns[i] < ns[k],
        forall|i: int| 0 <= i < ns.len() ==> 0 <= #[trigger] ns[i],
        forall|i: int| 0 <= i < ns.len() ==> #[trigger] starts[i] < ns[i],
        forall|i: int, k: int|
            0 <= i <= k < ns.len() ==> #[trigger] starts[i] <= #[trigger] starts[k],
        forall|i: int| 0 <= i <= j ==> !#[trigger] expired[i],
    ensures
        recorded(scores_before(ns, starts, expired, j), starts[j], ns[j]) == recent_set(
            ns,
            j + 1,
            starts[j],
        ),
    decreases j,
{
    let start = starts[j];
    let before = scores_before(ns, starts, expired, j);
    let rest = before.filter(|x: int| !(0 <= x <= start));
    assert(!expired[j]);
    if j > 0 {
        let previous = starts[j - 1];
        lemma_unexpired_set(ns, starts, expired, j - 1);
        assert(before == recent_set(ns, j, previous));
        lemma_recent_set_shrinks(ns, j, previous, start);
        lemma_recent_set_nonnegative(ns, j, previous);
        assert forall|x: int| rest.contains(x) <==> recent_set(ns, j, start).contains(x) by {
            assert(recent_set(ns, j, start).contains(x) <==> recent_set(ns, j, previous).contains(x)
                && x > start);
        }
    } else {
        assert(recent_set(ns, 0, start) =~= Set::empty());
    }
    assert(rest =~= recent_set(ns, j, start));
    assert(recorded(before, start, ns[j]) =~= recent_set(ns, j + 1, start));
}

proof fn lemma_all_allowed(times: Seq<int>, all: Seq<bool>, n: int, from: int)
    requires
        0 <= n <= all.len(),
        forall|i: int| 0 <= i < all.len() ==> #[trigger] all[i],
    ensures
        recent_allowed(times, all, n, from) == recent(times, n, from),
    decreases n,
{
    if n > 0 {
        lemma_all_allowed(times, all, n - 1, from);
        assert(all[n - 1]);
    }
}

/// What the transactions count is a sliding window: each counts every request on its
/// key of the last `window_seconds`, itself among them, and as long as the set has not
/// expired, exactly those that came after the start of its window.
///
/// `times` are the server times of the requests on one key. Each transaction is taken
/// to run alone, at the time that its request read.
pub proof fn law_transactions_count_a_sliding_window(
    times: Seq<(i64, i64)>,
    window_seconds: u64,
    expired: Seq<bool>,
    j: int,
)
    requires
        1 <= window_seconds <= i64::MAX,
        in_order(times),
        expires_with_the_window(times, window_seconds, expired),
        0 <= j < times.len(),
    ensures
        ({
            let ns = in_ns(times);
            let starts = window_starts(times, window_seconds);
            let count = counted_at(ns, starts, expired, j);
            &&& recent(ns, j + 1, ns[j] - window_seconds * 1_000_000_000) <= count
            &&& (forall|i: int| 0 <= i <= j ==> !#[trigger] expired[i]) ==> count == recent(
                ns,
                j + 1,
                starts[j],
            )
        }),
{
    let ns = in_ns(times);
    let starts = window_starts(times, window_seconds);
    let span = window_seconds * 1_000_000_000;
    lemma_windows_of_transactions(times, window_seconds, expired);
    let all = Seq::new(ns.len(), |i: int| true);
    lemma_kept_are_counted(ns, starts, expired, all, span, j);
    lemma_all_allowed(ns, all, j + 1, ns[j] - span);
    if forall|i: int| 0 <= i <= j ==> !#[trigger] expired[i] {
        let start = starts[j];
        let now = ns[j];
        lemma_unexpired_set(ns, starts, expired, j);
        lemma_recent_set(ns, j + 1, start);
        assert(recorded(scores_before(ns, starts, expired, j), start, now).filter(
            |x: int| start <= x <= now,
        ) =~= recent_set(ns, j + 1, start));
    }
}

/// Which of the requests at server times are allowed, by what was counted for each.
pub open spec fn pipe_allowed(
    times: Seq<(i64, i64)>,
    counts: Seq<i64>,
    max_requests: u32,
    window_seconds: u64,
) -> Seq<bool> {
    Seq::new(
        times.len(),
        |j: int|
            rate_limiter::pipe_result(max_requests, window_seconds, times[j].0, counts[j]).allowed,
    )
}

/// Which of the requests at times of the system are allowed, by what was counted for
/// each.
pub open spec fn system_allowed(
    now_millis: Seq<u128>,
    counts: Seq<i32>,
    max_requests: u32,
    window_seconds: u64,
) -> Seq<bool> {
    Seq::new(
        now_millis.len(),
        |j: int|
            rate_limiter::system_result(
                max_requests,
                window_seconds,
                now_millis[j],
                counts[j],
            ).allowed,
    )
}

/// No window of `window_seconds` holds more allowed requests than the limit.
///
/// `times` are the server times of the requests on one key, in order, and `counts`
/// what the server counted for each. The server is taken to count, with each
/// request, every allowed request on the key in the last `window_seconds`, itself
/// among them. Requests of one microsecond share a member and are counted as one.
pub proof fn law_window_admits_at_most_the_limit(
    times: Seq<(i64, i64)>,
    counts: Seq<i64>,
    max_requests: u32,
    window_seconds: u64,
    i: int,
)
    requires
        0 <= i < times.len(),
        counts.len() == times.len(),
        ({
            let ns = in_ns(times);
            let allowed = pipe_allowed(times, counts, max_requests, window_seconds);
            let span = window_seconds * 1_000_000_000;
            &&& forall|j: int, k: int| 0 <= j <= k < ns.len() ==> ns[j] <= ns[k]
            &&& forall|j: int|
                0 <= j < ns.len() ==> recent_allowed(ns, allowed, j + 1, ns[j] - span)
                    <= #[trigger] counts[j]
        }),
    ensures
        recent_allowed(
            in_ns(times),
            pipe_allowed(times, counts, max_requests, window_seconds),
            i + 1,
            in_ns(times)[i] - window_seconds * 1_000_000_000,
        ) <= max_requests,
{
    let ns = in_ns(times);
    let allowed = pipe_allowed(times, counts, max_requests, window_seconds);
    let span = window_seconds * 1_000_000_000;
    let c = counts.map_values(|n: i64| n as int);
    assert forall|j: int| 0 <= j < ns.len() implies recent_allowed(
        ns,
        allowed,
        j + 1,
        ns[j] - span,
    ) <= #[trigger] c[j] by {
        assert(c[j] == counts[j]);
    }
    lemma_window_holds_limit(ns, c, allowed, max_requests as int, span, i + 1, ns[i] - span);
}

/// No window of `window_seconds` holds more allowed requests than the limit, where
/// each check reads what its own transaction counts and the set expires in between.
///
/// `times` are the server times of the requests on one key. Each transaction is taken
/// to run alone, at the time that its request read.
pub proof fn law_sliding_window_is_enforced(
    times: Seq<(i64, i64)>,
    expired: Seq<bool>,
    counts: Seq<i64>,
    max_requests: u32,
    window_seconds: u64,
    i: int,
)
    requires
        1 <= window_seconds <= i64::MAX,
        in_order(times),
        expires_with_the_window(times, window_seconds, expired),
        0 <= i < times.len(),
        counts.len() == times.len(),
        forall|j: int|
            0 <= j < times.len() ==> #[trigger] counts[j] == counted_at(
                in_ns(times),
                window_starts(times, window_seconds),
                expired,
                j,
            ),
    ensures
        recent_allowed(
            in_ns(times),
            pipe_allowed(times, counts, max_requests, window_seconds),
            i + 1,
            in_ns(times)[i] - window_seconds * 1_000_000_000,
        ) <= max_requests,
{
    let ns = in_ns(times);
    let starts = window_starts(times, window_seconds);
    let allowed = pipe_allowed(times, counts, max_requests, window_seconds);
    let span = window_seconds * 1_000_000_000;
    lemma_windows_of_transactions(times, window_seconds, expired);
    assert forall|j: int| 0 <= j < ns.len() implies recent_allowed(
        ns,
        allowed,
        j + 1,
        ns[j] - span,
    ) <= #[trigger] counts[j] by {
        lemma_kept_are_counted(ns, starts, expired, allowed, span, j);
    }
    law_window_admits_at_most_the_limit(times, counts, max_requests, window_seconds, i);
}

/// With the checks by the system's clock, too, no window of `window_seconds` holds more
/// allowed requests than the limit.
///
/// `times` are the scores of the requests on one key, in nanoseconds and in order, and
/// `counts` what the server counted for each. The server is taken to count, with each
/// request, every allowed request on the key in the last `window_seconds`, itself
/// among them.
pub proof fn law_system_window_admits_at_most_the_limit(
    times: Seq<int>,
    now_millis: Seq<u128>,
    counts: Seq<i32>,
    max_requests: u32,
    window_seconds: u64,
    i: int,
)
    requires
        0 <= i < times.len(),
        counts.len() == times.len(),
        now_millis.len() == times.len(),
        forall|j: int, k: int| 0 <= j <= k < times.len() ==> times[j] <= times[k],
        forall|j: int|
            0 <= j < times.len() ==> recent_allowed(
                times,
                system_allowed(now_millis, counts, max_requests, window_seconds),
                j + 1,
                times[j] - window_seconds * 1_000_000_000,
            ) <= #[trigger] counts[j],
    ensures
        recent_allowed(
            times,
            system_allowed(now_millis, counts, max_requests, window_seconds),
            i + 1,
            times[i] - window_seconds * 1_000_000_000,
        ) <= max_requests,
{
    let allowed = system_allowed(now_millis, counts, max_requests, window_seconds);
    let span = window_seconds * 1_000_000_000;
    let c = counts.map_values(|n: i32| n as int);
    assert((max_requests as i32) <= max_requests) by (bit_vector);
    assert forall|j: int| 0 <= j < times.len() implies recent_allowed(
        times,
        allowed,
        j + 1,
        times[j] - span,
    ) <= #[trigger] c[j] by {
        assert(c[j] == counts[j]);
    }
    lemma_window_holds_limit(times, c, allowed, max_requests as int, span, i + 1, times[i] - span);
}

/// The checks by the system's clock enforce the limit on every window, where each reads
/// its own count and the set expires in between.
///
/// `times` are the scores of the requests on one key, in nanoseconds, and `now_millis`
/// the times at which their checks began. Only an allowed request puts off the expiry:
/// where the set has expired before a request, no request was allowed in the last
/// `window_seconds`. Each check is taken to run alone, and scores as exact.
pub proof fn law_stepwise_window_is_enforced(
    times: Seq<int>,
    now_millis: Seq<u128>,
    expired: Seq<bool>,
    counts: Seq<i32>,
    max_requests: u32,
    window_seconds: u64,
    i: int,
)
    requires
        0 <= i < times.len(),
        counts.len() == times.len(),
        now_millis.len() == times.len(),
        forall|j: int, k: int| 0 <= j < k < times.len() ==> times[j] < times[k],
        forall|j: int|
            0 <= j < times.len() ==> (#[trigger] now_millis[j]) <= u64::MAX && now_millis[j]
                * 1_000_000 <= times[j] && rate_limiter::system_window_computable(
                now_millis[j],
                window_seconds,
            ),
        forall|j: int, k: int|
            0 <= j < k < times.len() && #[trigger] expired[k] && #[trigger] system_allowed(
                now_millis,
                counts,
                max_requests,
                window_seconds,
            )[j] ==> times[j] + window_seconds * 1_000_000_000 <= times[k],
        forall|j: int|
            0 <= j < times.len() ==> #[trigger] counts[j] == counted_at(
                times,
                now_millis.map_values(
                    |now: u128| rate_limiter::system_window_start(now, window_seconds),
                ),
                expired,
                j,
            ),
    ensures
        recent_allowed(
            times,
            system_allowed(now_millis, counts, max_requests, window_seconds),
            i + 1,
            times[i] - window_seconds * 1_000_000_000,
        ) <= max_requests,
{
    let allowed = system_allowed(now_millis, counts, max_requests, window_seconds);
    let starts = now_millis.map_values(
        |now: u128| rate_limiter::system_window_start(now, window_seconds),
    );
    let span = window_seconds * 1_000_000_000;
    assert forall|j: int| 0 <= j < times.len() implies #[trigger] starts[j] <= times[j] - span by {
        assert(now_millis[j] <= u64::MAX);
    }
    assert forall|j: int| 0 <= j < times.len() implies recent_allowed(
        times,
        allowed,
        j + 1,
        times[j] - span,
    ) <= #[trigger] counts[j] by {
        lemma_kept_are_counted(times, starts, expired, allowed, span, j);
    }
    law_system_window_admits_at_most_the_limit(
        times,
        now_millis,
        counts,
        max_requests,
        window_seconds,
        i,
    );
}

/// The window that a check counts reaches from the request back over all of
/// `window_seconds`, and over less than a millisecond more.
pub proof fn law_counted_window_covers_the_seconds(sec: i64, usec: i64, window_seconds: u64)
    requires
        0 <= usec,
        window_seconds <= i64::MAX,
    ensures
        ({
            let window = window_seconds as int;
            let now = rate_limiter::time_ns(sec as int, usec as int);
            let start = rate_limiter::window_start_ns(sec as int, usec as int, window);
            now - window * 1_000_000_000 - 1_000_000 < start <= now - window * 1_000_000_000
        }),
        rate_limiter::window_start_ns(sec as int, usec as int, (window_seconds as i64) as int) <= rate_limiter::time_ns(
            sec as int,
            usec as int,
        ),
{
}

/// Requests at different server times have different members.
pub proof fn law_members_differ(sec1: i64, usec1: i64, sec2: i64, usec2: i64)
    requires
        0 <= usec1 < 1_000_000,
        0 <= usec2 < 1_000_000,
        (sec1, usec1) != (sec2, usec2),
    ensures
        text::decimal(rate_limiter::time_ns(sec1 as int, usec1 as int)) != text::decimal(
            rate_limiter::time_ns(sec2 as int, usec2 as int),
        ),
{
    let a = rate_limiter::time_ns(sec1 as int, usec1 as int);
    let b = rate_limiter::time_ns(sec2 as int, usec2 as int);
    if text::decimal(a) == text::decimal(b) {
        text::decimal_is_injective(a, b);
    }
}

/// Different keys have different sorted sets.
pub proof fn law_keys_have_sets_of_their_own(key1: Seq<char>, key2: Seq<char>)
    requires
        key1 != key2,
    ensures
        commands::words(seq![rate_limiter::rate_limit_key(key1)]) != commands::words(
            seq![rate_limiter::rate_limit_key(key2)],
        ),
{
    let k1 = rate_limiter::rate_limit_key(key1);
    let k2 = rate_limiter::rate_limit_key(key2);
    let w1 = commands::words(seq![k1]);
    let w2 = commands::words(seq![k2]);
    if w1 == w2 {
        assert(w1[0] == w2[0]);
        text::utf8_is_injective(k1, k2);
        let n = "rate_limit:"@.len() as int;
        assert(k1.skip(n) =~= key1);
        assert(k2.skip(n) =~= key2);
    }
}

/// A request is allowed exactly while the count stays within the limit. What
/// remains and what was counted then make up the limit; otherwise nothing remains.
pub proof fn law_remaining_and_counted_make_up_the_limit(
    max_requests: u32,
    window_seconds: u64,
    sec: i64,
    count: i64,
)
    requires
        0 <= count,
    ensures
        ({
            let r = rate_limiter::pipe_result(max_requests, window_seconds, sec, count);
            &&& r.allowed <==> count <= max_requests
            &&& r.allowed ==> r.remaining + count == max_requests
            &&& !r.allowed ==> r.remaining == 0
        }),
{
}

/// The two ways to check give the same result for the same second and count.
pub proof fn law_both_checks_agree(
    max_requests: u32,
    window_seconds: u64,
    sec: i64,
    now_millis: u128,
    count: i32,
)
    requires
        0 <= count,
        max_requests <= i32::MAX,
        0 <= sec,
        sec == now_millis / 1000,
        now_millis + window_seconds * 1000 <= u64::MAX,
    ensures
        rate_limiter::pipe_result(max_requests, window_seconds, sec, count as i64) == rate_limiter::system_result(
            max_requests,
            window_seconds,
            now_millis,
            count,
        ),
{
}

/// On the same set, at the same instant, the two ways to check work on the same
/// window, leave the same set, count the same and give the same result.
///
/// `scores` is what the set holds before the check. The scores are taken as exact.
pub proof fn law_both_checks_agree_on_one_set(
    scores: Set<int>,
    max_requests: u32,
    window_seconds: u64,
    sec: i64,
    usec: i64,
    now_millis: u128,
    count_by_server: i64,
    count_by_system: i32,
)
    requires
        0 <= sec,
        0 <= usec < 1_000_000,
        now_millis == rate_limiter::time_ms(sec as int, usec as int),
        rate_limiter::window_computable(sec, usec, window_seconds),
        rate_limiter::system_window_computable(now_millis, window_seconds),
        now_millis + window_seconds * 1000 <= u64::MAX,
        max_requests <= i32::MAX,
        count_by_server == counted(
            scores,
            rate_limiter::window_start_ns(
                sec as int,
                usec as int,
                (window_seconds as i64) as int,
            ),
            rate_limiter::time_ns(sec as int, usec as int),
        ),
        count_by_system == counted(
            scores,
            rate_limiter::system_window_start(now_millis, window_seconds),
            rate_limiter::time_ns(sec as int, usec as int),
        ),
    ensures
        ({
            let now = rate_limiter::time_ns(sec as int, usec as int);
            let start = rate_limiter::window_start_ns(
                sec as int,
                usec as int,
                (window_seconds as i64) as int,
            );
            let system_start = rate_limiter::system_window_start(now_millis, window_seconds);
            &&& start == system_start
            &&& recorded(scores, start, now) == recorded(scores, system_start, now)
        }),
        count_by_server == count_by_system,
        rate_limiter::pipe_result(max_requests, window_seconds, sec, count_by_server)
            == rate_limiter::system_result(
            max_requests,
            window_seconds,
            now_millis,
            count_by_system,
        ),
{
    assert(now_millis as u64 == now_millis);
    assert(window_seconds as i64 == window_seconds);
    law_both_checks_agree(max_requests, window_seconds, sec, now_millis, count_by_system);
}

/// A window of a whole positive number of seconds below two to the power of 31 can
/// be computed at every server time from the epoch to the year 2262.
pub proof fn law_ordinary_checks_are_computable(
    max_requests: u32,
    window_seconds: u64,
    sec: i64,
    usec: i64,
    count: i64,
)
    requires
        1 <= window_seconds <= i32::MAX,
        0 <= sec <= 9_223_372_035,
        0 <= usec < 1_000_000,
        0 <= count,
    ensures
        rate_limiter::window_computable(sec, usec, window_seconds),
        rate_limiter::pipe_result_computable(max_requests, window_seconds, sec, count),
{
}

/// A finished check in one transaction asks for the time, runs the transaction of that time,
/// and takes its result from that second and the count of that transaction.
pub proof fn law_check_rests_on_its_own_transaction(
    key: Seq<char>,
    max_requests: u32,
    window_seconds: u64,
    stages: Seq<PipeStage>,
    events: Seq<PipeEvent>,
    actions: Seq<PipeAction>,
)
    requires
        stages.len() == events.len() + 1,
        actions.len() == events.len(),
        stages[0] == PipeStage::Begin,
        stages.last() is Over,
        forall|i: int|
            0 <= i < events.len() ==> rate_limiter::pipe_awaits(
                max_requests,
                window_seconds,
                stages[i],
                #[trigger] events[i],
            ) && rate_limiter::is_pipe_step(
                key,
                max_requests,
                window_seconds,
                stages[i],
                events[i],
                stages[i + 1],
                actions[i],
            ),
    ensures
        events.len() == 3,
        actions[0] matches PipeAction::Query(c) && commands::cmd_words(c) == commands::words(
            seq!["TIME"@],
        ),
        events[1] matches PipeEvent::Time { sec, usec } && {
            &&& actions[1] matches PipeAction::Run(p)
            &&& commands::pipeline_is_atomic(p)
            &&& commands::pipeline_commands(p) == rate_limiter::window_commands(
                key,
                window_seconds,
                sec,
                usec,
            )
            &&& events[2] matches PipeEvent::Counted { count }
            &&& actions[2] == PipeAction::Done(
                rate_limiter::pipe_result(max_requests, window_seconds, sec, count),
            )
        },
{
    assert(events.len() > 0);
    assert(rate_limiter::pipe_awaits(max_requests, window_seconds, stages[0], events[0]));
    assert(events.len() > 1);
    assert(rate_limiter::pipe_awaits(max_requests, window_seconds, stages[1], events[1]));
    assert(events.len() > 2);
    assert(rate_limiter::pipe_awaits(max_requests, window_seconds, stages[2], events[2]));
    if events.len() > 3 {
        assert(rate_limiter::pipe_awaits(max_requests, window_seconds, stages[3], events[3]));
    }
}

/// A finished check command by command takes its result from the time at which it began and
/// from its count. Only an allowed request puts off the expiry of the set.
pub proof fn law_stepwise_check_rests_on_its_own_count(
    key: Seq<char>,
    max_requests: u32,
    window_seconds: u64,
    stages: Seq<CheckStage>,
    events: Seq<CheckEvent>,
    actions: Seq<CheckAction>,
)
    requires
        stages.len() == events.len() + 1,
        actions.len() == events.len(),
        stages[0] == CheckStage::Begin,
        stages.last() is Over,
        forall|i: int|
            0 <= i < events.len() ==> rate_limiter::check_awaits(
                max_requests,
                window_seconds,
                stages[i],
                #[trigger] events[i],
            ) && rate_limiter::is_check_step(
                key,
                max_requests,
                window_seconds,
                stages[i],
                events[i],
                stages[i + 1],
                actions[i],
            ),
    ensures
        5 <= events.len() <= 6,
        events[0] matches CheckEvent::Start { now_millis } && events[4] matches CheckEvent::Counted {
            count,
        } && {
            let result = rate_limiter::system_result(
                max_requests,
                window_seconds,
                now_millis,
                count,
            );
            &&& actions.last() == CheckAction::Done(result)
            &&& result.allowed <==> events.len() == 6
        },
{
    assert(events.len() > 0);
    assert(rate_limiter::check_awaits(max_requests, window_seconds, stages[0], events[0]));
    assert(events.len() > 1);
    assert(rate_limiter::check_awaits(max_requests, window_seconds, stages[1], events[1]));
    assert(events.len() > 2);
    assert(rate_limiter::check_awaits(max_requests, window_seconds, stages[2], events[2]));
    assert(events.len() > 3);
    assert(rate_limiter::check_awaits(max_requests, window_seconds, stages[3], events[3]));
    assert(events.len() > 4);
    assert(rate_limiter::check_awaits(max_requests, window_seconds, stages[4], events[4]));
    if events.len() > 5 {
        assert(rate_limiter::check_awaits(max_requests, window_seconds, stages[5], events[5]));
    }
    if events.len() > 6 {
        assert(rate_limiter::check_awaits(max_requests, window_seconds, stages[6], events[6]));
    }
}

} // verus!

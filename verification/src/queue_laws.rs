//! What holds of the queues as a whole.
//!
//! The server is modelled as its documentation describes it. A priority queue is the
//! sequence of its members with their scores, the lowest score first and no member
//! twice; a list is the sequence of its members. Scores are taken as exact.

use crate::commands;
use crate::queue_manager;
use crate::queue_manager::PriorityScore;
use crate::text;
use vstd::prelude::*;

verus! {

proof fn lemma_below(a: PriorityScore, b: PriorityScore)
    ensures
        a.below(b) <==> a.base < b.base || (a.base == b.base && a.nanos < b.nanos),
{
    let half = queue_manager::HALF_SHARE_NANOS as int;
    let (ba, na) = (a.base as int, a.nanos as int);
    let (bb, nb) = (b.base as int, b.nanos as int);
    let (da, db) = (na + half, nb + half);
    assert((ba * da + na) * db == ba * (da * db) + na * db) by (nonlinear_arith);
    assert((bb * db + nb) * da == bb * (da * db) + nb * da) by (nonlinear_arith);
    assert(0 <= na * db < da * db) by (nonlinear_arith)
        requires
            0 <= na < da,
            0 < db,
    ;
    assert(0 <= nb * da < da * db) by (nonlinear_arith)
        requires
            0 <= nb < db,
            0 < da,
    ;
    if ba < bb {
        assert(ba * (da * db) + da * db <= bb * (da * db)) by (nonlinear_arith)
            requires
                ba + 1 <= bb,
                0 < da * db,
        ;
    } else if ba > bb {
        assert(bb * (da * db) + da * db <= ba * (da * db)) by (nonlinear_arith)
            requires
                bb + 1 <= ba,
                0 < da * db,
        ;
    } else {
        assert(na * db < nb * da <==> na < nb) by (nonlinear_arith)
            requires
                da == na + half,
                db == nb + half,
                half > 0,
        ;
    }
}

/// Of two scores at most one is below the other.
pub proof fn law_scores_are_ordered(a: PriorityScore, b: PriorityScore)
    ensures
        !(a.below(b) && b.below(a)),
{
}

/// The time adds less than 1 to a score: it stays below the score of the next lower
/// priority.
pub proof fn law_time_adds_less_than_a_step(score: PriorityScore)
    ensures
        score.base * score.denominator() <= score.numerator() < (score.base + 1)
            * score.denominator(),
{
    let (b, d) = (score.base as int, score.denominator());
    assert((b + 1) * d == b * d + d) by (nonlinear_arith);
}

/// Of two members, the one of the higher priority has the lower score, and so goes
/// first, whenever they arrived.
pub proof fn law_higher_priority_goes_first(
    priority1: i32,
    nanos1: u128,
    priority2: i32,
    nanos2: u128,
)
    requires
        queue_manager::score_computable(priority1),
        queue_manager::score_computable(priority2),
        priority1 > priority2,
    ensures
        queue_manager::priority_score(priority1, nanos1).below(
            queue_manager::priority_score(priority2, nanos2),
        ),
{
    lemma_below(
        queue_manager::priority_score(priority1, nanos1),
        queue_manager::priority_score(priority2, nanos2),
    );
}

/// Within one priority the queue is first in, first out: exactly the earlier of two
/// members has the lower score.
pub proof fn law_queue_is_fifo_within_a_priority(priority: i32, nanos1: u128, nanos2: u128)
    requires
        queue_manager::score_computable(priority),
    ensures
        queue_manager::priority_score(priority, nanos1).below(
            queue_manager::priority_score(priority, nanos2),
        ) <==> nanos1 < nanos2,
{
    lemma_below(
        queue_manager::priority_score(priority, nanos1),
        queue_manager::priority_score(priority, nanos2),
    );
}

/// Different queue names have different priority queues.
pub proof fn law_queues_have_keys_of_their_own(name1: Seq<char>, name2: Seq<char>)
    requires
        name1 != name2,
    ensures
        commands::words(seq![queue_manager::priority_queue_key(name1)]) != commands::words(
            seq![queue_manager::priority_queue_key(name2)],
        ),
{
    let k1 = queue_manager::priority_queue_key(name1);
    let k2 = queue_manager::priority_queue_key(name2);
    let w1 = commands::words(seq![k1]);
    let w2 = commands::words(seq![k2]);
    if w1 == w2 {
        assert(w1[0] == w2[0]);
        text::utf8_is_injective(k1, k2);
        assert(k1.take(name1.len() as int) =~= name1);
        assert(k2.take(name2.len() as int) =~= name2);
    }
}

/// How many of `members`, each a priority and a time of arrival, score below `score`.
pub open spec fn scored_below(members: Seq<(i32, u128)>, score: PriorityScore) -> nat
    decreases members.len(),
{
    if members.len() == 0 {
        0
    } else {
        let m = members.last();
        scored_below(members.drop_last(), score) + if queue_manager::priority_score(
            m.0,
            m.1,
        ).below(score) {
            1nat
        } else {
            0
        }
    }
}

/// A member goes before another: it has a higher priority, or the same and arrived
/// earlier. Each is given as its priority and its time of arrival.
pub open spec fn goes_before(a: (i32, u128), b: (i32, u128)) -> bool {
    a.0 > b.0 || (a.0 == b.0 && a.1 < b.1)
}

/// How many of `members` go before `m`.
pub open spec fn going_first(members: Seq<(i32, u128)>, m: (i32, u128)) -> nat
    decreases members.len(),
{
    if members.len() == 0 {
        0
    } else {
        going_first(members.drop_last(), m) + if goes_before(members.last(), m) {
            1nat
        } else {
            0
        }
    }
}

proof fn lemma_lower_score_goes_before(a: (i32, u128), b: (i32, u128))
    requires
        queue_manager::score_computable(a.0),
        queue_manager::score_computable(b.0),
    ensures
        queue_manager::priority_score(a.0, a.1).below(queue_manager::priority_score(b.0, b.1))
            <==> goes_before(a, b),
{
    lemma_below(
        queue_manager::priority_score(a.0, a.1),
        queue_manager::priority_score(b.0, b.1),
    );
}

proof fn lemma_scored_below_go_first(members: Seq<(i32, u128)>, m: (i32, u128))
    requires
        queue_manager::score_computable(m.0),
        forall|j: int| 0 <= j < members.len() ==> queue_manager::score_computable((#[trigger] members[j]).0),
    ensures
        scored_below(members, queue_manager::priority_score(m.0, m.1)) == going_first(
            members,
            m,
        ),
    decreases members.len(),
{
    if members.len() > 0 {
        lemma_lower_score_goes_before(members.last(), m);
        assert forall|j: int| 0 <= j < members.drop_last().len() implies queue_manager::score_computable(
            (#[trigger] members.drop_last()[j]).0,
        ) by {
            assert(members.drop_last()[j] == members[j]);
        }
        lemma_scored_below_go_first(members.drop_last(), m);
    }
}

/// The position of a member is one more than the number of members that go before
/// it: those of a higher priority, and those of its own that arrived earlier.
///
/// `members` are the members of the queue. The rank is taken to be the number of
/// members with a lower score.
pub proof fn law_position_counts_who_goes_first(
    members: Seq<(i32, u128)>,
    m: (i32, u128),
    rank: i64,
)
    requires
        queue_manager::score_computable(m.0),
        queue_manager::position_computable(Some(rank)),
        forall|j: int| 0 <= j < members.len() ==> queue_manager::score_computable((#[trigger] members[j]).0),
        rank == scored_below(members, queue_manager::priority_score(m.0, m.1)),
    ensures
        queue_manager::position_after(Some(rank)) == going_first(members, m) + 1,
{
    lemma_scored_below_go_first(members, m);
}

/// `q` is a priority queue: its members with their scores, the lowest score first, no
/// member twice. Members of one score may stand in either order.
pub open spec fn is_queue<M>(q: Seq<(M, PriorityScore)>) -> bool {
    &&& forall|i: int, j: int|
        0 <= i < j < q.len() ==> !(#[trigger] q[j]).1.below((#[trigger] q[i]).1)
    &&& forall|i: int, j: int|
        0 <= i < j < q.len() ==> (#[trigger] q[i]).0 != (#[trigger] q[j]).0
}

/// `ZADD` puts `member` with `score` into `before`, in place of what it was there.
pub open spec fn is_added<M>(
    before: Seq<(M, PriorityScore)>,
    member: M,
    score: PriorityScore,
    after: Seq<(M, PriorityScore)>,
) -> bool {
    &&& is_queue(after)
    &&& forall|e: (M, PriorityScore)| #[trigger]
        after.contains(e) <==> e == (member, score) || (before.contains(e) && e.0 != member)
}

/// `ZRANK` answers with the index of `member`, or nothing where it is not in the queue.
pub open spec fn is_rank(q: Seq<(Seq<char>, PriorityScore)>, member: Seq<char>, rank: Option<i64>) -> bool {
    match rank {
        Some(r) => 0 <= r < q.len() && q[r as int].0 == member,
        None => forall|i: int| 0 <= i < q.len() ==> (#[trigger] q[i]).0 != member,
    }
}

/// `ZRANGE` over all of `q` answers with its members in order.
pub open spec fn is_listed(q: Seq<(Seq<char>, PriorityScore)>, reply: Seq<String>) -> bool {
    &&& reply.len() == q.len()
    &&& forall|i: int| 0 <= i < q.len() ==> (#[trigger] reply[i])@ == q[i].0
}

/// `ZPOPMIN` answers with the first member of `before` and takes it out. From an empty
/// queue it takes nothing, and answers with nothing.
pub open spec fn is_popped(
    before: Seq<(Seq<char>, PriorityScore)>,
    reply: Seq<String>,
    after: Seq<(Seq<char>, PriorityScore)>,
) -> bool {
    if before.len() == 0 {
        reply.len() == 0 && after == before
    } else {
        reply.len() > 0 && reply[0]@ == before[0].0 && after == before.drop_first()
    }
}

/// Members come out of a priority queue in the order in which it was listed, each call
/// taking out just the member that it returns; then nothing comes, and nothing changes.
///
/// `states[k]` is the queue before call `k` and `replies[k]` its answer; the queue was
/// listed before the first call.
pub proof fn law_members_come_out_as_listed(
    listed: Seq<String>,
    states: Seq<Seq<(Seq<char>, PriorityScore)>>,
    replies: Seq<Seq<String>>,
    k: int,
)
    requires
        states.len() == replies.len() + 1,
        is_listed(states[0], listed),
        forall|i: int|
            0 <= i < replies.len() ==> is_popped(states[i], #[trigger] replies[i], states[i + 1]),
        0 <= k < replies.len(),
    ensures
        k < listed.len() ==> {
            &&& queue_manager::popped(replies[k]) matches Some(m)
            &&& m@ == listed[k]@
            &&& states[k] == states[0].skip(k)
            &&& states[k + 1] == states[0].skip(k + 1)
        },
        k >= listed.len() ==> {
            &&& queue_manager::popped(replies[k]) is None
            &&& states[k].len() == 0
            &&& states[k + 1] == states[k]
        },
    decreases k,
{
    if k > 0 {
        law_members_come_out_as_listed(listed, states, replies, k - 1);
    } else {
        assert(states[0].skip(0) =~= states[0]);
    }
    assert(is_popped(states[k], replies[k], states[k + 1]));
    if k < listed.len() {
        assert(states[k] == states[0].skip(k));
        assert(states[k][0] == states[0][k]);
        assert(listed[k]@ == states[0][k].0);
        assert(states[0].skip(k).drop_first() =~= states[0].skip(k + 1));
    } else if k == listed.len() {
        assert(states[0].skip(k).len() == 0);
    }
}

/// Putting `member` into a queue gives a position, and as long as the queue stays as it
/// is, every further question for the rank of `member` gives the same one. It is at
/// least 1, and the queue lists `member` at the index one below it.
pub proof fn law_position_is_the_place_in_the_list(
    before: Seq<(Seq<char>, PriorityScore)>,
    member: Seq<char>,
    score: PriorityScore,
    q: Seq<(Seq<char>, PriorityScore)>,
    rank: Option<i64>,
    rank_later: Option<i64>,
    listed: Seq<String>,
)
    requires
        is_added(before, member, score, q),
        is_rank(q, member, rank),
        is_rank(q, member, rank_later),
        is_listed(q, listed),
    ensures
        queue_manager::position_after(rank) == queue_manager::position_after(rank_later),
        1 <= queue_manager::position_after(rank) <= listed.len(),
        listed[queue_manager::position_after(rank) - 1]@ == member,
{
    assert(q.contains((member, score)));
    let i = choose|i: int| 0 <= i < q.len() && q[i] == (member, score);
    assert(q[i].0 == member);
    if rank is Some && rank_later is Some {
        let r1 = rank->0 as int;
        let r2 = rank_later->0 as int;
        assert(q[r1].0 == q[r2].0);
        assert(r1 == r2);
    }
    assert(listed[rank->0 as int]@ == q[rank->0 as int].0);
}

/// A priority queue stands in the order of its priorities, and within one priority in
/// the order of arrival. `origins[i]` are the priority and the time of arrival from
/// which member `i` has its score.
pub proof fn law_queue_stands_in_order(
    q: Seq<(Seq<char>, PriorityScore)>,
    origins: Seq<(i32, u128)>,
    i: int,
    j: int,
)
    requires
        is_queue(q),
        origins.len() == q.len(),
        forall|k: int|
            0 <= k < q.len() ==> queue_manager::score_computable((#[trigger] origins[k]).0)
                && q[k].1 == queue_manager::priority_score(origins[k].0, origins[k].1),
        0 <= i < j < q.len(),
    ensures
        origins[i].0 >= origins[j].0,
        origins[i].0 == origins[j].0 ==> origins[i].1 <= origins[j].1,
{
    assert(!q[j].1.below(q[i].1));
    lemma_lower_score_goes_before(origins[j], origins[i]);
}

/// Of two members in a queue that was empty, the one of the higher priority comes out
/// first, whichever went in first and whatever the clock read.
pub proof fn law_higher_priority_comes_out_first(
    a: Seq<char>,
    priority_a: i32,
    nanos_a: u128,
    b: Seq<char>,
    priority_b: i32,
    nanos_b: u128,
    between: Seq<(Seq<char>, PriorityScore)>,
    q: Seq<(Seq<char>, PriorityScore)>,
    reply: Seq<String>,
    after: Seq<(Seq<char>, PriorityScore)>,
)
    requires
        a != b,
        queue_manager::score_computable(priority_a),
        queue_manager::score_computable(priority_b),
        priority_a > priority_b,
        ({
            let empty = Seq::<(Seq<char>, PriorityScore)>::empty();
            let score_a = queue_manager::priority_score(priority_a, nanos_a);
            let score_b = queue_manager::priority_score(priority_b, nanos_b);
            ||| is_added(empty, a, score_a, between) && is_added(between, b, score_b, q)
            ||| is_added(empty, b, score_b, between) && is_added(between, a, score_a, q)
        }),
        is_popped(q, reply, after),
    ensures
        queue_manager::popped(reply) matches Some(m) && m@ == a,
{
    let score_a = queue_manager::priority_score(priority_a, nanos_a);
    let score_b = queue_manager::priority_score(priority_b, nanos_b);
    law_higher_priority_goes_first(priority_a, nanos_a, priority_b, nanos_b);
    assert(between.contains((a, score_a)) || between.contains((b, score_b)));
    assert(q.contains((a, score_a)));
    let i = choose|i: int| 0 <= i < q.len() && q[i] == (a, score_a);
    assert(q.contains(q[0]));
    assert(between.contains(q[0]) ==> (q[0] == (a, score_a) || q[0] == (b, score_b)));
    assert(q[0] == (a, score_a) || q[0] == (b, score_b));
    if q[0] == (b, score_b) {
        assert(!q[i].1.below(q[0].1));
    }
}

/// `RPUSH` puts `data` at the end of a list and answers with the length of the list.
pub open spec fn is_pushed(
    before: Seq<Seq<char>>,
    data: Seq<char>,
    reply: i64,
    after: Seq<Seq<char>>,
) -> bool {
    after == before.push(data) && reply == after.len()
}

/// `LPOP` answers with the first member of a list and takes it out. From an empty list
/// it takes nothing, and answers with nothing.
pub open spec fn is_taken(
    before: Seq<Seq<char>>,
    reply: Option<String>,
    after: Seq<Seq<char>>,
) -> bool {
    if before.len() == 0 {
        reply is None && after == before
    } else {
        reply matches Some(m) && m@ == before[0] && after == before.drop_first()
    }
}

/// Each push to a list that was empty answers with the number of pushes so far.
///
/// `data[k]` is what push `k` puts in, `filling[k]` the list before it and `answers[k]`
/// its answer.
pub proof fn law_pushes_answer_with_the_length(
    data: Seq<Seq<char>>,
    filling: Seq<Seq<Seq<char>>>,
    answers: Seq<i64>,
    n: int,
)
    requires
        filling.len() == data.len() + 1,
        answers.len() == data.len(),
        filling[0].len() == 0,
        forall|k: int|
            0 <= k < data.len() ==> is_pushed(
                filling[k],
                #[trigger] data[k],
                answers[k],
                filling[k + 1],
            ),
        0 <= n <= data.len(),
    ensures
        filling[n] == data.take(n),
        n > 0 ==> answers[n - 1] == n,
    decreases n,
{
    if n > 0 {
        law_pushes_answer_with_the_length(data, filling, answers, n - 1);
        assert(is_pushed(filling[n - 1], data[n - 1], answers[n - 1], filling[n]));
        assert(data.take(n) =~= data.take(n - 1).push(data[n - 1]));
    } else {
        assert(filling[0] =~= data.take(0));
    }
}

/// What is pushed to a list comes out in the order in which it went in, repeats
/// included; then nothing comes, and nothing changes.
///
/// The list was empty and `data` was pushed to it. `states[k]` is the list before call
/// `k` and `replies[k]` its answer.
pub proof fn law_list_is_first_in_first_out(
    data: Seq<Seq<char>>,
    filling: Seq<Seq<Seq<char>>>,
    answers: Seq<i64>,
    states: Seq<Seq<Seq<char>>>,
    replies: Seq<Option<String>>,
    k: int,
)
    requires
        filling.len() == data.len() + 1,
        answers.len() == data.len(),
        filling[0].len() == 0,
        forall|i: int|
            0 <= i < data.len() ==> is_pushed(
                filling[i],
                #[trigger] data[i],
                answers[i],
                filling[i + 1],
            ),
        states.len() == replies.len() + 1,
        states[0] == filling.last(),
        forall|i: int|
            0 <= i < replies.len() ==> is_taken(states[i], #[trigger] replies[i], states[i + 1]),
        0 <= k < replies.len(),
    ensures
        k < data.len() ==> {
            &&& replies[k] matches Some(m)
            &&& m@ == data[k]
            &&& states[k + 1] == data.skip(k + 1)
        },
        k >= data.len() ==> {
            &&& replies[k] is None
            &&& states[k].len() == 0
            &&& states[k + 1] == states[k]
        },
    decreases k,
{
    if k > 0 {
        law_list_is_first_in_first_out(data, filling, answers, states, replies, k - 1);
    } else {
        law_pushes_answer_with_the_length(data, filling, answers, data.len() as int);
        assert(data.take(data.len() as int) =~= data.skip(0));
    }
    assert(is_taken(states[k], replies[k], states[k + 1]));
    if k < data.len() {
        assert(states[k] == data.skip(k));
        assert(data.skip(k)[0] == data[k]);
        assert(data.skip(k).drop_first() =~= data.skip(k + 1));
    } else if k == data.len() {
        assert(data.skip(k).len() == 0);
    }
}

/// What is put at the end of a list in which it does not occur stands last.
pub proof fn law_new_member_of_a_list_stands_last(items: Seq<String>, data: String)
    requires
        forall|j: int| 0 <= j < items.len() ==> (#[trigger] items[j])@ != data@,
    ensures
        queue_manager::is_first_position(items.push(data), data@, items.len() as int + 1),
{
}

/// When the first member of a list is taken out, every other one moves up by one.
pub proof fn law_members_of_a_list_move_up(items: Seq<String>, data: Seq<char>, position: int)
    requires
        queue_manager::is_first_position(items, data, position),
        position > 1,
    ensures
        queue_manager::is_first_position(items.drop_first(), data, position - 1),
{
    assert forall|j: int| 0 <= j < position - 2 implies (#[trigger] items.drop_first()[j])@
        != data by {
        assert(items.drop_first()[j] == items[j + 1]);
    }
}

} // verus!

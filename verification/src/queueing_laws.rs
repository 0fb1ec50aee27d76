//! What the calls of a queue do, from what goes in to what comes out.

use crate::commands;
use crate::queue_laws;
use crate::queue_manager;
use crate::queue_manager::{
    EnqueueAction, EnqueueEvent, PriorityScore, QueueManager, StepwiseAction, StepwiseEvent,
};
use crate::server;
use crate::server::Answer;
use crate::text;
use deadpool_redis::redis::Cmd;
use vstd::prelude::*;
use vstd::utf8::*;

verus! {

/// Of two members, the one of the higher priority has the lower score, and of one
/// priority the earlier, whenever they came. The score of priority `p` lies from
/// `1000 - p` to less than one more.
pub proof fn law_scores_order_the_queue<P>(
    queue: QueueManager<P>,
    queue_name: &str,
    data1: &str,
    priority1: i32,
    nanos1: u128,
    r1: EnqueueAction,
    data2: &str,
    priority2: i32,
    nanos2: u128,
    r2: EnqueueAction,
)
    requires
        call_ensures(
            QueueManager::<P>::enqueue_with_priority_pipe,
            (&queue, queue_name, data1, priority1, EnqueueEvent::Clock { nanos: nanos1 }),
            r1,
        ),
        call_ensures(
            QueueManager::<P>::enqueue_with_priority_pipe,
            (&queue, queue_name, data2, priority2, EnqueueEvent::Clock { nanos: nanos2 }),
            r2,
        ),
        1000 - priority1 <= i32::MAX,
        1000 - priority2 <= i32::MAX,
    ensures
        r1 matches EnqueueAction::Score(s1) && r2 matches EnqueueAction::Score(s2) && {
            &&& s1.below(s2) <==> priority1 > priority2 || (priority1 == priority2 && nanos1
                < nanos2)
            &&& (1000 - priority1) * s1.denominator() <= s1.numerator() < (1001 - priority1)
                * s1.denominator()
            &&& s1.base + priority1 == 1000
            &&& s1.nanos == nanos1
        },
{
    let s1 = r1->Score_0;
    let s2 = r2->Score_0;
    if priority1 > priority2 {
        queue_laws::law_higher_priority_goes_first(priority1, nanos1, priority2, nanos2);
    } else if priority1 < priority2 {
        queue_laws::law_higher_priority_goes_first(priority2, nanos2, priority1, nanos1);
        queue_laws::law_scores_are_ordered(s1, s2);
    } else {
        queue_laws::law_queue_is_fifo_within_a_priority(priority1, nanos1, nanos2);
    }
    queue_laws::law_time_adds_less_than_a_step(s1);
}

proof fn lemma_numerals()
    ensures
        server::number(encode_utf8(text::decimal(0))) == 0,
        server::number(encode_utf8(text::decimal(1))) == 1,
        server::number(encode_utf8(text::decimal(-1))) == -1,
{
    server::lemma_number(0);
    server::lemma_number(1);
    server::lemma_number(-1);
}

proof fn lemma_added_once(
    before: Seq<(Seq<u8>, PriorityScore)>,
    member: Seq<u8>,
    score: PriorityScore,
    after: Seq<(Seq<u8>, PriorityScore)>,
    rank: Option<int>,
)
    requires
        queue_laws::is_added(before, member, score, after),
        rank is Some ==> 0 <= rank->0 < after.len() && after[rank->0].0 == member,
        rank is None ==> forall|i: int| 0 <= i < after.len() ==> (#[trigger] after[i]).0 != member,
    ensures
        rank is Some,
        after[rank->0] == (member, score),
{
    assert(after.contains((member, score)));
    let i = choose|i: int| 0 <= i < after.len() && after[i] == (member, score);
    assert(after[i].0 == member);
    if rank is Some && rank->0 != i {
        assert(after[rank->0].0 == after[i].0);
    }
}

/// Both ways of putting a member into a priority queue score it alike.
pub proof fn law_both_ways_score_alike<P>(
    queue: QueueManager<P>,
    queue_name: &str,
    data: &str,
    priority: i32,
    nanos: u128,
    r1: EnqueueAction,
    r2: StepwiseAction,
)
    requires
        call_ensures(
            QueueManager::<P>::enqueue_with_priority_pipe,
            (&queue, queue_name, data, priority, EnqueueEvent::Clock { nanos }),
            r1,
        ),
        call_ensures(
            QueueManager::<P>::enqueue_with_priority,
            (&queue, queue_name, data, priority, StepwiseEvent::Clock { nanos }),
            r2,
        ),
    ensures
        r1 is Score,
        r2 is Score,
        r1->Score_0 == r2->Score_0,
{
}

/// Putting a member into the priority queue of this name, in one transaction: the server
/// then holds it there with its score, beside all others, and the position that comes out
/// is its place in the queue, counted from 1.
pub proof fn law_transaction_gives_the_place<P>(
    queue: QueueManager<P>,
    queue_name: &str,
    data: &str,
    priority: i32,
    written: String,
    score: PriorityScore,
    run: EnqueueAction,
    before: Seq<(Seq<u8>, PriorityScore)>,
    added: Answer,
    between: Seq<(Seq<u8>, PriorityScore)>,
    ranked: Answer,
    after: Seq<(Seq<u8>, PriorityScore)>,
    rank: Option<i64>,
    done: EnqueueAction,
)
    requires
        call_ensures(
            QueueManager::<P>::enqueue_with_priority_pipe,
            (&queue, queue_name, data, priority, EnqueueEvent::Scored { score: written }),
            run,
        ),
        server::runs_on_queue(
            before,
            encode_utf8(queue_name@ + "_priority"@),
            commands::pipeline_commands(run->Run_0)[0].0,
            encode_utf8(written@),
            score,
            added,
            between,
        ),
        server::runs_on_queue(
            between,
            encode_utf8(queue_name@ + "_priority"@),
            commands::pipeline_commands(run->Run_0)[1].0,
            encode_utf8(written@),
            score,
            ranked,
            after,
        ),
        match rank {
            Some(i) => ranked == Answer::Rank(Some(i as int)),
            None => ranked == Answer::Rank(None),
        },
        call_ensures(
            QueueManager::<P>::enqueue_with_priority_pipe,
            (&queue, queue_name, data, priority, EnqueueEvent::Ranked { rank }),
            done,
        ),
    ensures
        run matches EnqueueAction::Run(p) && {
            &&& commands::pipeline_is_atomic(p)
            &&& commands::pipeline_commands(p).len() == 2
            &&& !commands::pipeline_commands(p)[0].1
            &&& !commands::pipeline_commands(p)[1].1
        },
        queue_laws::is_added(before, encode_utf8(data@), score, after),
        done matches EnqueueAction::Done(n) && 1 <= n <= after.len() && after[n - 1] == (
            encode_utf8(data@),
            score,
        ),
{
    lemma_added_once(
        before,
        encode_utf8(data@),
        score,
        after,
        match rank {
            Some(i) => Some(i as int),
            None => None,
        },
    );
}

/// Putting a member into the priority queue of this name, command by command: the server
/// then holds it there with its score, beside all others, and the position that comes out
/// is its place in the queue, counted from 1. `get_priority_position` under the key of the
/// queue asks for the same place.
pub proof fn law_stepwise_enqueue_gives_the_place<P>(
    queue: QueueManager<P>,
    queue_name: &str,
    key: &str,
    data: &str,
    priority: i32,
    written: String,
    score: PriorityScore,
    add: StepwiseAction,
    ask: StepwiseAction,
    asked_again: Cmd,
    before: Seq<(Seq<u8>, PriorityScore)>,
    added: Answer,
    between: Seq<(Seq<u8>, PriorityScore)>,
    ranked: Answer,
    after: Seq<(Seq<u8>, PriorityScore)>,
    ranked_again: Answer,
    after_that: Seq<(Seq<u8>, PriorityScore)>,
    rank: Option<i64>,
    rank_again: Option<i64>,
    done: StepwiseAction,
    position: i64,
)
    requires
        key@ == queue_name@ + "_priority"@,
        call_ensures(
            QueueManager::<P>::enqueue_with_priority,
            (&queue, queue_name, data, priority, StepwiseEvent::Scored { score: written }),
            add,
        ),
        call_ensures(
            QueueManager::<P>::enqueue_with_priority,
            (&queue, queue_name, data, priority, StepwiseEvent::Added),
            ask,
        ),
        call_ensures(QueueManager::<P>::get_priority_position, (&queue, key, data), asked_again),
        server::runs_on_queue(
            before,
            encode_utf8(queue_name@ + "_priority"@),
            commands::cmd_words(add->Add_0),
            encode_utf8(written@),
            score,
            added,
            between,
        ),
        server::runs_on_queue(
            between,
            encode_utf8(queue_name@ + "_priority"@),
            commands::cmd_words(ask->AskRank_0),
            encode_utf8(written@),
            score,
            ranked,
            after,
        ),
        server::runs_on_queue(
            after,
            encode_utf8(key@),
            commands::cmd_words(asked_again),
            encode_utf8(written@),
            score,
            ranked_again,
            after_that,
        ),
        match rank {
            Some(i) => ranked == Answer::Rank(Some(i as int)),
            None => ranked == Answer::Rank(None),
        },
        match rank_again {
            Some(i) => ranked_again == Answer::Rank(Some(i as int)),
            None => ranked_again == Answer::Rank(None),
        },
        call_ensures(
            QueueManager::<P>::enqueue_with_priority,
            (&queue, queue_name, data, priority, StepwiseEvent::Ranked { rank }),
            done,
        ),
        call_ensures(queue_manager::position_of_rank, (rank_again,), position),
    ensures
        add is Add,
        ask is AskRank,
        queue_laws::is_added(before, encode_utf8(data@), score, after),
        after_that == after,
        done matches StepwiseAction::Done(n) && 1 <= n <= after.len() && after[n - 1] == (
            encode_utf8(data@),
            score,
        ) && position == n,
{
    let spec_rank: Option<int> = match rank {
        Some(i) => Some(i as int),
        None => None,
    };
    let spec_again: Option<int> = match rank_again {
        Some(i) => Some(i as int),
        None => None,
    };
    lemma_added_once(before, encode_utf8(data@), score, after, spec_rank);
    lemma_added_once(before, encode_utf8(data@), score, after, spec_again);
    if spec_rank->0 != spec_again->0 {
        assert(after[spec_rank->0].0 == after[spec_again->0].0);
    }
}

/// Taking the next member out of the priority queue of this name gives the first of it, and
/// leaves the others; from an empty queue nothing comes, and nothing changes. Its length and
/// its order are those of the same queue.
pub proof fn law_first_of_a_priority_queue_comes_out<P>(
    queue: QueueManager<P>,
    queue_name: &str,
    written: Seq<u8>,
    score: PriorityScore,
    before: Seq<(Seq<u8>, PriorityScore)>,
    pop: Cmd,
    popped: Answer,
    after: Seq<(Seq<u8>, PriorityScore)>,
    reply: Vec<String>,
    member: Option<String>,
    ask_length: Cmd,
    length: Answer,
    ask_order: Cmd,
    order: Answer,
    after_length: Seq<(Seq<u8>, PriorityScore)>,
    after_order: Seq<(Seq<u8>, PriorityScore)>,
)
    requires
        call_ensures(QueueManager::<P>::dequeue_by_priority, (&queue, queue_name), pop),
        call_ensures(QueueManager::<P>::priority_queue_length, (&queue, queue_name), ask_length),
        call_ensures(QueueManager::<P>::get_priority_queue_order, (&queue, queue_name), ask_order),
        server::runs_on_queue(
            before,
            encode_utf8(queue_name@ + "_priority"@),
            commands::cmd_words(ask_length),
            written,
            score,
            length,
            after_length,
        ),
        server::runs_on_queue(
            before,
            encode_utf8(queue_name@ + "_priority"@),
            commands::cmd_words(ask_order),
            written,
            score,
            order,
            after_order,
        ),
        server::runs_on_queue(
            before,
            encode_utf8(queue_name@ + "_priority"@),
            commands::cmd_words(pop),
            written,
            score,
            popped,
            after,
        ),
        popped == Answer::Members(reply@.map_values(|w: String| encode_utf8(w@))),
        call_ensures(queue_manager::popped_member, (reply,), member),
    ensures
        before.len() == 0 ==> member is None && after == before,
        before.len() > 0 ==> member is Some && encode_utf8((member->0)@) == before[0].0 && after
            == before.drop_first(),
        length == Answer::Number(before.len() as int),
        order == Answer::Members(server::members(before)),
        after_length == before,
        after_order == before,
{
    lemma_numerals();
    let words = reply@.map_values(|w: String| encode_utf8(w@));
    assert(words.len() == reply@.len());
    if before.len() > 0 {
        assert(words[0] == encode_utf8(reply@[0]@));
    }
    let all = server::members(before);
    assert(server::range(all, 0, -1) =~= all);
}

/// A list is first in, first out: what is put in stands last, and the answer is its place;
/// what is taken out is the first. Its length is the number of its members, and the place
/// of a member is that of its first occurrence, counted from 1.
pub proof fn law_list_keeps_its_order<P>(
    queue: QueueManager<P>,
    queue_name: &str,
    data: &str,
    before: Seq<Seq<u8>>,
    push: Cmd,
    pushed: Answer,
    longer: Seq<Seq<u8>>,
    pop: Cmd,
    popped: Answer,
    shorter: Seq<Seq<u8>>,
    ask_length: Cmd,
    length: Answer,
    after_length: Seq<Seq<u8>>,
    ask_all: Cmd,
    all: Answer,
    after_all: Seq<Seq<u8>>,
    items: &Vec<String>,
    place: Option<i64>,
)
    requires
        call_ensures(QueueManager::<P>::enqueue, (&queue, queue_name, data), push),
        call_ensures(QueueManager::<P>::dequeue, (&queue, queue_name), pop),
        call_ensures(QueueManager::<P>::queue_length, (&queue, queue_name), ask_length),
        call_ensures(QueueManager::<P>::get_queue_position, (&queue, queue_name), ask_all),
        server::runs_on_list(
            before,
            encode_utf8(queue_name@),
            commands::cmd_words(push),
            pushed,
            longer,
        ),
        server::runs_on_list(
            before,
            encode_utf8(queue_name@),
            commands::cmd_words(pop),
            popped,
            shorter,
        ),
        server::runs_on_list(
            before,
            encode_utf8(queue_name@),
            commands::cmd_words(ask_length),
            length,
            after_length,
        ),
        server::runs_on_list(
            before,
            encode_utf8(queue_name@),
            commands::cmd_words(ask_all),
            all,
            after_all,
        ),
        all == Answer::Members(items@.map_values(|w: String| encode_utf8(w@))),
        call_ensures(queue_manager::position_in_list, (items, data), place),
    ensures
        longer == before.push(encode_utf8(data@)),
        pushed == Answer::Number(before.len() as int + 1),
        before.len() > 0 ==> popped == Answer::Member(Some(before[0])) && shorter
            == before.drop_first(),
        before.len() == 0 ==> popped == Answer::Member(None) && shorter == before,
        length == Answer::Number(before.len() as int),
        after_length == before,
        after_all == before,
        place is Some ==> {
            let n = place->0;
            &&& 1 <= n <= before.len()
            &&& before[n - 1] == encode_utf8(data@)
            &&& forall|j: int| 0 <= j < n - 1 ==> #[trigger] before[j] != encode_utf8(data@)
        },
        place is None ==> !before.contains(encode_utf8(data@)),
{
    lemma_numerals();
    assert(server::range(before, 0, -1) =~= before);
    let words = items@.map_values(|w: String| encode_utf8(w@));
    assert(words == before);
    assert forall|j: int| 0 <= j < before.len() implies (#[trigger] before[j] == encode_utf8(data@)
        <==> items@[j]@ == data@) by {
        assert(words[j] == encode_utf8(items@[j]@));
        if before[j] == encode_utf8(data@) {
            text::utf8_is_injective(items@[j]@, data@);
        }
    }
    if place is None && before.contains(encode_utf8(data@)) {
        let j = choose|j: int| 0 <= j < before.len() && before[j] == encode_utf8(data@);
        assert(items@[j]@ == data@);
    }
}

/// Of an answer with a member, the first word is the member, whatever follows; an empty
/// one has none. The place of the member at an index is one more, and without an index it
/// is the first.
pub proof fn law_answers_are_read(
    reply: Vec<String>,
    member: Option<String>,
    rank: i64,
    place: i64,
    place_without: i64,
)
    requires
        call_ensures(queue_manager::popped_member, (reply,), member),
        call_ensures(queue_manager::position_of_rank, (Some(rank),), place),
        call_ensures(queue_manager::position_of_rank, (None::<i64>,), place_without),
    ensures
        member is Some <==> reply@.len() > 0,
        member is Some ==> member->0 == reply@[0],
        place - rank == 1,
        place_without == 1,
{
}

/// Every priority of a valid request can be queued, and every place be told.
pub proof fn law_queueing_can_be_done<P>(
    queue: QueueManager<P>,
    queue_name: &str,
    data: &str,
    priority: i32,
    nanos: u128,
    rank: Option<i64>,
)
    requires
        -1000 <= priority,
        rank != Some(i64::MAX),
    ensures
        call_requires(
            QueueManager::<P>::enqueue_with_priority_pipe,
            (&queue, queue_name, data, priority, EnqueueEvent::Clock { nanos }),
        ),
        call_requires(
            QueueManager::<P>::enqueue_with_priority_pipe,
            (&queue, queue_name, data, priority, EnqueueEvent::Ranked { rank }),
        ),
        call_requires(
            QueueManager::<P>::enqueue_with_priority,
            (&queue, queue_name, data, priority, StepwiseEvent::Clock { nanos }),
        ),
        call_requires(
            QueueManager::<P>::enqueue_with_priority,
            (&queue, queue_name, data, priority, StepwiseEvent::Ranked { rank }),
        ),
        call_requires(queue_manager::position_of_rank, (rank,)),
{
}

} // verus!

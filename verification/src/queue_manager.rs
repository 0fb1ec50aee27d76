//! Queues in Redis: plain lists, and priority queues in sorted sets.
//!
//! A priority queue orders its members by score, the lowest first. The score of a
//! member is `1000 - priority`, plus a share of 1 that grows with the time of its
//! arrival and never reaches 1: a higher priority comes out first, whatever the times,
//! and within one priority what came first. What is sent is the score as a double,
//! which rounds the time to some two milliseconds.

use crate::commands;
use crate::text;
use deadpool_redis::redis::{Cmd, Pipeline};
use vstd::prelude::*;

verus! {

/// Keeps queues. `pool` gives the connections to the server.
pub struct QueueManager<P> {
    pub pool: P,
}

/// The time, in nanoseconds after the epoch, whose share in a score is one half.
pub const HALF_SHARE_NANOS: u128 = 2_000_000_000_000_000_000;

/// A score before it is written as a number:
/// `base + nanos / (nanos + HALF_SHARE_NANOS)`.
#[derive(Debug, Clone, Copy)]
pub struct PriorityScore {
    pub base: i32,
    pub nanos: u128,
}

/// What happened while a member is put into a priority queue in one transaction.
pub enum EnqueueEvent {
    /// It begins, so many nanoseconds after the epoch.
    Clock { nanos: u128 },
    /// The text of the score that was asked for.
    Scored { score: String },
    /// The server answered with the rank of the member.
    Ranked { rank: Option<i64> },
}

/// What to do next to put a member into a priority queue in one transaction.
pub enum EnqueueAction {
    /// Write the score as a number.
    Score(PriorityScore),
    /// Run the pipeline.
    Run(Pipeline),
    /// The member is in the queue, at this position.
    Done(i64),
}

/// What happened while a member is put into a priority queue command by command.
pub enum StepwiseEvent {
    /// It begins, so many nanoseconds after the epoch.
    Clock { nanos: u128 },
    /// The text of the score that was asked for.
    Scored { score: String },
    /// The member is in the queue.
    Added,
    /// The server answered with the rank of the member.
    Ranked { rank: Option<i64> },
}

/// What to do next to put a member into a priority queue command by command.
pub enum StepwiseAction {
    /// Write the score as a number.
    Score(PriorityScore),
    /// Send the command that adds the member.
    Add(Cmd),
    /// Send the command that asks for the rank of the member.
    AskRank(Cmd),
    /// The member is in the queue, at this position.
    Done(i64),
}

impl PriorityScore {
    /// The score as a fraction: what stands above the line.
    pub open spec fn numerator(self) -> int {
        self.base * self.denominator() + self.nanos
    }

    /// The score as a fraction: what stands below the line.
    pub open spec fn denominator(self) -> int {
        self.nanos + HALF_SHARE_NANOS
    }

    /// The score is lower than `other`.
    pub open spec fn below(self, other: PriorityScore) -> bool {
        self.numerator() * other.denominator() < other.numerator() * self.denominator()
    }
}

/// The key of the priority queue called `queue_name`.
pub open spec fn priority_queue_key(queue_name: Seq<char>) -> Seq<char> {
    queue_name + "_priority"@
}

/// The score of a member with `priority` can be computed in 32 bits.
pub open spec fn score_computable(priority: i32) -> bool {
    1000 - priority <= i32::MAX
}

/// The score of a member with `priority` that arrived at `nanos`.
pub open spec fn priority_score(priority: i32, nanos: u128) -> PriorityScore {
    PriorityScore { base: (1000 - priority) as i32, nanos }
}

/// The position that follows `rank` can be computed in 64 bits.
pub open spec fn position_computable(rank: Option<i64>) -> bool {
    rank != Some(i64::MAX)
}

/// The position of the member of `rank`, counted from 1. Without a rank it is 1.
pub open spec fn position_after(rank: Option<i64>) -> int {
    match rank {
        Some(r) => r + 1,
        None => 1,
    }
}

/// Where `data` stands first among `items`, counted from 1.
pub open spec fn is_first_position(items: Seq<String>, data: Seq<char>, position: int) -> bool {
    &&& 1 <= position <= items.len()
    &&& items[position - 1]@ == data
    &&& forall|j: int| 0 <= j < position - 1 ==> (#[trigger] items[j])@ != data
}

/// `data` stands nowhere among `items`.
pub open spec fn is_absent(items: Seq<String>, data: Seq<char>) -> bool {
    forall|j: int| 0 <= j < items.len() ==> (#[trigger] items[j])@ != data
}

/// The score of a member with `priority` that arrived at `nanos`.
fn score_of(priority: i32, nanos: u128) -> (score: PriorityScore)
    requires
        score_computable(priority),
    ensures
        score == priority_score(priority, nanos),
{
    PriorityScore { base: 1000 - priority, nanos }
}

/// Reads the answer to a query for a rank.
pub fn position_of_rank(rank: Option<i64>) -> (position: i64)
    requires
        position_computable(rank),
    ensures
        position == position_after(rank),
{
    match rank {
        Some(r) => r + 1,
        None => 1,
    }
}

/// The member in an answer to a query for the member of the lowest score.
pub open spec fn popped(reply: Seq<String>) -> Option<String> {
    if reply.len() == 0 {
        None
    } else {
        Some(reply[0])
    }
}

/// Reads the answer to a query for the member of the lowest score: the member, then
/// its score, or nothing.
pub fn popped_member(reply: Vec<String>) -> (member: Option<String>)
    ensures
        member == popped(reply@),
{
    if reply.len() == 0 {
        None
    } else {
        Some(reply[0].clone())
    }
}

/// Looks for `data` in the members of a list, the oldest first.
pub fn position_in_list(items: &Vec<String>, data: &str) -> (position: Option<i64>)
    requires
        items@.len() <= i64::MAX,
    ensures
        match position {
            Some(p) => is_first_position(items@, data@, p as int),
            None => is_absent(items@, data@),
        },
{
    let wanted: String = data.to_owned();
    let mut index: usize = 0;
    while index < items.len()
        invariant
            index <= items@.len() <= i64::MAX,
            wanted@ == data@,
            forall|j: int| 0 <= j < index ==> (#[trigger] items@[j])@ != data@,
        decreases items@.len() - index,
    {
        if items[index].eq(&wanted) {
            return Some(index as i64 + 1);
        }
        index = index + 1;
    }
    None
}

impl<P> QueueManager<P> {
    pub fn new(pool: P) -> (manager: Self)
        ensures
            manager.pool == pool,
    {
        Self { pool }
    }

    /// The command that puts `data` at the end of a list. The server answers with
    /// the position of `data`.
    pub fn enqueue(&self, queue_name: &str, data: &str) -> (c: Cmd)
        ensures
            commands::cmd_words(c) == commands::words(seq!["RPUSH"@, queue_name@, data@]),
    {
        commands::rpush(queue_name, data)
    }

    /// One step of putting `data` into a priority queue in one transaction. The
    /// result is the position of `data` in the queue, counted from 1.
    pub fn enqueue_with_priority_pipe(
        &self,
        queue_name: &str,
        data: &str,
        priority: i32,
        event: EnqueueEvent,
    ) -> (action: EnqueueAction)
        requires
            match event {
                EnqueueEvent::Clock { .. } => score_computable(priority),
                EnqueueEvent::Scored { .. } => true,
                EnqueueEvent::Ranked { rank } => position_computable(rank),
            },
        ensures
            match event {
                EnqueueEvent::Clock { nanos } => action == EnqueueAction::Score(
                    priority_score(priority, nanos),
                ),
                EnqueueEvent::Scored { score } => action matches EnqueueAction::Run(p)
                    && commands::pipeline_is_atomic(p) && commands::pipeline_commands(p) == seq![
                    commands::kept(
                        seq!["ZADD"@, priority_queue_key(queue_name@), score@, data@],
                    ),
                    commands::kept(seq!["ZRANK"@, priority_queue_key(queue_name@), data@]),
                ],
                EnqueueEvent::Ranked { rank } => action matches EnqueueAction::Done(n) && n
                    == position_after(rank),
            },
    {
        match event {
            EnqueueEvent::Clock { nanos } => EnqueueAction::Score(score_of(priority, nanos)),
            EnqueueEvent::Scored { score } => {
                let key = text::join(queue_name, "_priority");
                let mut p = commands::pipe();
                commands::atomic(&mut p);
                commands::add_command(&mut p, commands::zadd(key.as_str(), data, score.as_str()));
                commands::add_command(&mut p, commands::zrank(key.as_str(), data));
                assert(commands::pipeline_commands(p) =~= seq![
                    commands::kept(
                        seq!["ZADD"@, priority_queue_key(queue_name@), score@, data@],
                    ),
                    commands::kept(seq!["ZRANK"@, priority_queue_key(queue_name@), data@]),
                ]);
                EnqueueAction::Run(p)
            },
            EnqueueEvent::Ranked { rank } => EnqueueAction::Done(position_of_rank(rank)),
        }
    }

    /// One step of putting `data` into a priority queue command by command. The
    /// result is the position of `data` in the queue, counted from 1.
    pub fn enqueue_with_priority(
        &self,
        queue_name: &str,
        data: &str,
        priority: i32,
        event: StepwiseEvent,
    ) -> (action: StepwiseAction)
        requires
            match event {
                StepwiseEvent::Clock { .. } => score_computable(priority),
                StepwiseEvent::Ranked { rank } => position_computable(rank),
                _ => true,
            },
        ensures
            match event {
                StepwiseEvent::Clock { nanos } => action == StepwiseAction::Score(
                    priority_score(priority, nanos),
                ),
                StepwiseEvent::Scored { score } => action matches StepwiseAction::Add(c)
                    && commands::cmd_words(c) == commands::words(
                    seq!["ZADD"@, priority_queue_key(queue_name@), score@, data@],
                ),
                StepwiseEvent::Added => action matches StepwiseAction::AskRank(c)
                    && commands::cmd_words(c) == commands::words(
                    seq!["ZRANK"@, priority_queue_key(queue_name@), data@],
                ),
                StepwiseEvent::Ranked { rank } => action matches StepwiseAction::Done(n) && n
                    == position_after(rank),
            },
    {
        let key = text::join(queue_name, "_priority");
        match event {
            StepwiseEvent::Clock { nanos } => StepwiseAction::Score(score_of(priority, nanos)),
            StepwiseEvent::Scored { score } => StepwiseAction::Add(
                commands::zadd(key.as_str(), data, score.as_str()),
            ),
            StepwiseEvent::Added => StepwiseAction::AskRank(
                self.get_priority_position(key.as_str(), data),
            ),
            StepwiseEvent::Ranked { rank } => StepwiseAction::Done(position_of_rank(rank)),
        }
    }

    /// The command that asks for the rank of `data` in the priority queue under the
    /// key `priority_queue_name`. `position_of_rank` reads the answer.
    pub fn get_priority_position(&self, priority_queue_name: &str, data: &str) -> (c: Cmd)
        ensures
            commands::cmd_words(c) == commands::words(
                seq!["ZRANK"@, priority_queue_name@, data@],
            ),
    {
        commands::zrank(priority_queue_name, data)
    }

    /// The command that asks for the length of a priority queue.
    pub fn priority_queue_length(&self, queue_name: &str) -> (c: Cmd)
        ensures
            commands::cmd_words(c) == commands::words(
                seq!["ZCARD"@, priority_queue_key(queue_name@)],
            ),
    {
        let key = text::join(queue_name, "_priority");
        commands::zcard(key.as_str())
    }

    /// The command that takes the member of the lowest score out of a priority queue.
    /// `popped_member` reads the answer.
    pub fn dequeue_by_priority(&self, queue_name: &str) -> (c: Cmd)
        ensures
            commands::cmd_words(c) == commands::words(
                seq!["ZPOPMIN"@, priority_queue_key(queue_name@), text::decimal(1)],
            ),
    {
        let key = text::join(queue_name, "_priority");
        commands::zpopmin(key.as_str(), 1)
    }

    /// The command that asks for all members of a priority queue, the lowest score
    /// first.
    pub fn get_priority_queue_order(&self, queue_name: &str) -> (c: Cmd)
        ensures
            commands::cmd_words(c) == commands::words(
                seq![
                    "ZRANGE"@,
                    priority_queue_key(queue_name@),
                    text::decimal(0),
                    text::decimal(-1),
                ],
            ),
    {
        let key = text::join(queue_name, "_priority");
        commands::zrange(key.as_str(), 0, -1)
    }

    /// The command that takes the first member out of a list.
    pub fn dequeue(&self, queue_name: &str) -> (c: Cmd)
        ensures
            commands::cmd_words(c) == commands::words(seq!["LPOP"@, queue_name@]),
    {
        commands::lpop(queue_name)
    }

    /// The command that asks for the length of a list.
    pub fn queue_length(&self, queue_name: &str) -> (c: Cmd)
        ensures
            commands::cmd_words(c) == commands::words(seq!["LLEN"@, queue_name@]),
    {
        commands::llen(queue_name)
    }

    /// The command that asks for all members of a list. `position_in_list` looks for
    /// a member in the answer.
    pub fn get_queue_position(&self, queue_name: &str) -> (c: Cmd)
        ensures
            commands::cmd_words(c) == commands::words(
                seq!["LRANGE"@, queue_name@, text::decimal(0), text::decimal(-1)],
            ),
    {
        commands::lrange(queue_name, 0, -1)
    }
}

} // verus!

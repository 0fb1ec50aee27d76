//! What the server does with commands, as its documentation describes it.
//!
//! A command is read by its words. A sorted set that counts requests holds members that
//! are the numerals of their scores, and is taken as the set of its scores. A priority
//! queue is the sequence of its members with their scores, the lowest first. A list is the
//! sequence of its members.

use crate::queue_laws;
use crate::queue_manager::PriorityScore;
use crate::text;
use vstd::prelude::*;
use vstd::utf8::*;

verus! {

/// The number that a word writes.
pub open spec fn number(word: Seq<u8>) -> int {
    if word == encode_utf8("0.0"@) {
        0
    } else {
        choose|n: int| word == encode_utf8(text::decimal(n))
    }
}

/// A numeral is read as the number that it writes.
pub proof fn lemma_number(n: int)
    ensures
        number(encode_utf8(text::decimal(n))) == n,
{
    let word = encode_utf8(text::decimal(n));
    text::decimal_is_plain(n);
    if word == encode_utf8("0.0"@) {
        text::utf8_is_injective(text::decimal(n), "0.0"@);
        reveal_strlit("0.0");
        assert(text::decimal(n)[1] == '.');
    }
    let m = choose|m: int| word == encode_utf8(text::decimal(m));
    assert(word == encode_utf8(text::decimal(m)));
    text::utf8_is_injective(text::decimal(n), text::decimal(m));
    text::decimal_is_injective(n, m);
}

/// The names of commands differ.
pub proof fn lemma_names_differ()
    ensures
        encode_utf8("ZREMRANGEBYSCORE"@) != encode_utf8("ZADD"@),
        encode_utf8("ZREMRANGEBYSCORE"@) != encode_utf8("ZCOUNT"@),
        encode_utf8("ZREMRANGEBYSCORE"@) != encode_utf8("EXPIRE"@),
        encode_utf8("ZADD"@) != encode_utf8("ZCOUNT"@),
        encode_utf8("ZADD"@) != encode_utf8("EXPIRE"@),
        encode_utf8("ZCOUNT"@) != encode_utf8("EXPIRE"@),
{
    reveal_strlit("ZREMRANGEBYSCORE");
    reveal_strlit("ZADD");
    reveal_strlit("ZCOUNT");
    reveal_strlit("EXPIRE");
    assert("ZREMRANGEBYSCORE"@.len() == 16);
    assert("ZADD"@.len() == 4);
    assert("ZCOUNT"@.len() == 6);
    assert("EXPIRE"@[0] != "ZCOUNT"@[0]);
    encode_utf8_decode_utf8("ZREMRANGEBYSCORE"@);
    encode_utf8_decode_utf8("ZADD"@);
    encode_utf8_decode_utf8("ZCOUNT"@);
    encode_utf8_decode_utf8("EXPIRE"@);
}

/// The sorted set under a key: its scores, and in how many seconds it expires.
pub struct Window {
    pub scores: Set<int>,
    pub ttl: Option<int>,
}

/// The set under the key `k` after a command.
pub open spec fn run(w: Window, k: Seq<u8>, words: Seq<Seq<u8>>) -> Window {
    if words.len() < 3 || words[1] != k {
        w
    } else if words[0] == encode_utf8("ZREMRANGEBYSCORE"@) && words.len() == 4 {
        Window {
            scores: w.scores.filter(|x: int| !(number(words[2]) <= x <= number(words[3]))),
            ttl: w.ttl,
        }
    } else if words[0] == encode_utf8("ZADD"@) && words.len() == 4 && words[2] == words[3] {
        Window { scores: w.scores.insert(number(words[2])), ttl: w.ttl }
    } else if words[0] == encode_utf8("EXPIRE"@) && words.len() == 3 {
        Window { scores: w.scores, ttl: Some(number(words[2])) }
    } else {
        w
    }
}

/// What the server answers to a command that counts in the set under the key `k`.
pub open spec fn count(w: Window, k: Seq<u8>, words: Seq<Seq<u8>>) -> Option<int> {
    if words.len() == 4 && words[1] == k && words[0] == encode_utf8("ZCOUNT"@) {
        Some(
            w.scores.filter(|x: int| number(words[2]) <= x <= number(words[3])).len() as int,
        )
    } else {
        None
    }
}

/// Runs commands in order: the set under the key `k` after them, and the answers that
/// are kept.
pub open spec fn run_all(w: Window, k: Seq<u8>, commands: Seq<(Seq<Seq<u8>>, bool)>) -> (
    Window,
    Seq<Option<int>>,
)
    decreases commands.len(),
{
    if commands.len() == 0 {
        (w, Seq::empty())
    } else {
        let (before, answers) = run_all(w, k, commands.drop_last());
        let c = commands.last();
        (
            run(before, k, c.0),
            if c.1 {
                answers
            } else {
                answers.push(count(before, k, c.0))
            },
        )
    }
}

/// What the server answers.
pub enum Answer {
    Number(int),
    Rank(Option<int>),
    Member(Option<Seq<u8>>),
    Members(Seq<Seq<u8>>),
}

/// The members from index `a` to index `b`; negative indices count from the end.
pub open spec fn range(members: Seq<Seq<u8>>, a: int, b: int) -> Seq<Seq<u8>> {
    let n = members.len() as int;
    let lo = if a >= 0 {
        a
    } else if n + a >= 0 {
        n + a
    } else {
        0
    };
    let hi = if b < 0 {
        n + b
    } else if b < n {
        b
    } else {
        n - 1
    };
    if lo <= hi {
        members.subrange(lo, hi + 1)
    } else {
        Seq::empty()
    }
}

/// `words` is the command `name` on the key `k`, with so many words.
pub open spec fn is_command(words: Seq<Seq<u8>>, name: Seq<char>, k: Seq<u8>, len: int) -> bool {
    &&& words.len() == len
    &&& words[0] == encode_utf8(name)
    &&& words[1] == k
}

/// The server runs a command on the list under the key `k`.
pub open spec fn runs_on_list(
    before: Seq<Seq<u8>>,
    k: Seq<u8>,
    words: Seq<Seq<u8>>,
    answer: Answer,
    after: Seq<Seq<u8>>,
) -> bool {
    &&& is_command(words, "RPUSH"@, k, 3) ==> {
        &&& after == before.push(words[2])
        &&& answer == Answer::Number(after.len() as int)
    }
    &&& is_command(words, "LPOP"@, k, 2) && before.len() > 0 ==> {
        &&& after == before.drop_first()
        &&& answer == Answer::Member(Some(before[0]))
    }
    &&& is_command(words, "LPOP"@, k, 2) && before.len() == 0 ==> {
        &&& after == before
        &&& answer == Answer::Member(None)
    }
    &&& is_command(words, "LLEN"@, k, 2) ==> {
        &&& after == before
        &&& answer == Answer::Number(before.len() as int)
    }
    &&& is_command(words, "LRANGE"@, k, 4) ==> {
        &&& after == before
        &&& answer == Answer::Members(range(before, number(words[2]), number(words[3])))
    }
}

/// The members of a priority queue, in order.
pub open spec fn members(q: Seq<(Seq<u8>, PriorityScore)>) -> Seq<Seq<u8>> {
    q.map_values(|e: (Seq<u8>, PriorityScore)| e.0)
}

/// The server runs a command on the priority queue under the key `k`. The word `written`
/// writes the score `score`.
pub open spec fn runs_on_queue(
    before: Seq<(Seq<u8>, PriorityScore)>,
    k: Seq<u8>,
    words: Seq<Seq<u8>>,
    written: Seq<u8>,
    score: PriorityScore,
    answer: Answer,
    after: Seq<(Seq<u8>, PriorityScore)>,
) -> bool {
    &&& is_command(words, "ZADD"@, k, 4) && words[2] == written ==> queue_laws::is_added(
        before,
        words[3],
        score,
        after,
    )
    &&& is_command(words, "ZRANK"@, k, 3) ==> {
        &&& after == before
        &&& answer matches Answer::Rank(rank)
        &&& rank matches Some(i) ==> 0 <= i < before.len() && before[i].0 == words[2]
        &&& rank is None ==> forall|i: int|
            0 <= i < before.len() ==> (#[trigger] before[i]).0 != words[2]
    }
    &&& is_command(words, "ZCARD"@, k, 2) ==> {
        &&& after == before
        &&& answer == Answer::Number(before.len() as int)
    }
    &&& is_command(words, "ZRANGE"@, k, 4) ==> {
        &&& after == before
        &&& answer == Answer::Members(range(members(before), number(words[2]), number(words[3])))
    }
    &&& is_command(words, "ZPOPMIN"@, k, 3) && number(words[2]) == 1 && before.len() > 0 ==> {
        &&& after == before.drop_first()
        &&& answer matches Answer::Members(reply)
        &&& reply.len() == 2
        &&& reply[0] == before[0].0
    }
    &&& is_command(words, "ZPOPMIN"@, k, 3) && number(words[2]) == 1 && before.len() == 0 ==> {
        &&& after == before
        &&& answer == Answer::Members(Seq::empty())
    }
}

} // verus!

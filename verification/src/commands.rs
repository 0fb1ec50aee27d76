//! Redis commands and pipelines, as values.
//!
//! A `Cmd` is read as the words that it sends, each a byte string; a `Pipeline`
//! as its commands in order, each with a mark that says whether its reply is
//! dropped, and as whether it runs as one transaction.

use crate::text;
use deadpool_redis::redis::{Cmd, Pipeline};
use vstd::prelude::*;
use vstd::utf8::*;

verus! {

/// How many connections to the server are kept.
pub const REDIS_POOL_MAX_SIZE: usize = 200;

/// A Redis command, as the `redis` crate builds it.
#[verifier::external_type_specification]
#[verifier::external_body]
pub struct ExCmd(deadpool_redis::redis::Cmd);

/// A list of Redis commands that are sent together.
#[verifier::external_type_specification]
#[verifier::external_body]
pub struct ExPipeline(deadpool_redis::redis::Pipeline);

/// The words that `c` sends, the command's name first.
pub uninterp spec fn cmd_words(c: Cmd) -> Seq<Seq<u8>>;

/// The commands of `p` in order: the words of each, and whether its reply is dropped.
pub uninterp spec fn pipeline_commands(p: Pipeline) -> Seq<(Seq<Seq<u8>>, bool)>;

/// Whether `p` is enclosed in `MULTI` and `EXEC`.
pub uninterp spec fn pipeline_is_atomic(p: Pipeline) -> bool;

/// The UTF-8 form of each text in `parts`.
pub open spec fn words(parts: Seq<Seq<char>>) -> Seq<Seq<u8>> {
    parts.map_values(|w: Seq<char>| encode_utf8(w))
}

/// A command of a pipeline whose reply is kept.
pub open spec fn kept(parts: Seq<Seq<char>>) -> (Seq<Seq<u8>>, bool) {
    (words(parts), false)
}

/// A command of a pipeline whose reply is dropped.
pub open spec fn dropped(parts: Seq<Seq<char>>) -> (Seq<Seq<u8>>, bool) {
    (words(parts), true)
}

/// Calls `redis::cmd`. Claimed: the command has its name as its only word.
#[verifier::external_body]
pub(crate) fn cmd(name: &str) -> (c: Cmd)
    ensures
        cmd_words(c) == words(seq![name@]),
{
    deadpool_redis::redis::cmd(name)
}

/// Calls `Cmd::arg` with a string slice. Claimed: the text becomes the last word,
/// after the words that were there.
#[verifier::external_body]
pub(crate) fn arg(c: &mut Cmd, word: &str)
    ensures
        cmd_words(*final(c)) == cmd_words(*old(c)).push(encode_utf8(word@)),
{
    c.arg(word);
}

/// Calls `Cmd::zadd`. Claimed: `ZADD`, the key, the score and the member.
#[verifier::external_body]
pub(crate) fn zadd(key: &str, member: &str, score: &str) -> (c: Cmd)
    ensures
        cmd_words(c) == words(seq!["ZADD"@, key@, score@, member@]),
{
    Cmd::zadd(key, member, score)
}

/// Calls `Cmd::zcount`. Claimed: `ZCOUNT`, the key and the two bounds.
#[verifier::external_body]
pub(crate) fn zcount(key: &str, min: &str, max: &str) -> (c: Cmd)
    ensures
        cmd_words(c) == words(seq!["ZCOUNT"@, key@, min@, max@]),
{
    Cmd::zcount(key, min, max)
}

/// Calls `Cmd::expire`. Claimed: `EXPIRE`, the key and the decimal numeral of the seconds.
#[verifier::external_body]
pub(crate) fn expire(key: &str, seconds: i64) -> (c: Cmd)
    ensures
        cmd_words(c) == words(seq!["EXPIRE"@, key@, text::decimal(seconds as int)]),
{
    Cmd::expire(key, seconds)
}

/// Calls `Cmd::zrank`. Claimed: `ZRANK`, the key and the member.
#[verifier::external_body]
pub(crate) fn zrank(key: &str, member: &str) -> (c: Cmd)
    ensures
        cmd_words(c) == words(seq!["ZRANK"@, key@, member@]),
{
    Cmd::zrank(key, member)
}

/// Calls `Cmd::zcard`. Claimed: `ZCARD` and the key.
#[verifier::external_body]
pub(crate) fn zcard(key: &str) -> (c: Cmd)
    ensures
        cmd_words(c) == words(seq!["ZCARD"@, key@]),
{
    Cmd::zcard(key)
}

/// Calls `Cmd::zpopmin`. Claimed: `ZPOPMIN`, the key and the decimal numeral of the count.
#[verifier::external_body]
pub(crate) fn zpopmin(key: &str, count: isize) -> (c: Cmd)
    ensures
        cmd_words(c) == words(seq!["ZPOPMIN"@, key@, text::decimal(count as int)]),
{
    Cmd::zpopmin(key, count)
}

/// Calls `Cmd::zrange`. Claimed: `ZRANGE`, the key and the decimal numerals of the
/// two indices.
#[verifier::external_body]
pub(crate) fn zrange(key: &str, start: isize, stop: isize) -> (c: Cmd)
    ensures
        cmd_words(c) == words(seq!["ZRANGE"@, key@, text::decimal(start as int), text::decimal(stop as int)]),
{
    Cmd::zrange(key, start, stop)
}

/// Calls `Cmd::rpush` with one value. Claimed: `RPUSH`, the key and the value.
#[verifier::external_body]
pub(crate) fn rpush(key: &str, value: &str) -> (c: Cmd)
    ensures
        cmd_words(c) == words(seq!["RPUSH"@, key@, value@]),
{
    Cmd::rpush(key, value)
}

/// Calls `Cmd::lpop` without a count. Claimed: `LPOP` and the key.
#[verifier::external_body]
pub(crate) fn lpop(key: &str) -> (c: Cmd)
    ensures
        cmd_words(c) == words(seq!["LPOP"@, key@]),
{
    Cmd::lpop(key, None)
}

/// Calls `Cmd::llen`. Claimed: `LLEN` and the key.
#[verifier::external_body]
pub(crate) fn llen(key: &str) -> (c: Cmd)
    ensures
        cmd_words(c) == words(seq!["LLEN"@, key@]),
{
    Cmd::llen(key)
}

/// Calls `Cmd::lrange`. Claimed: `LRANGE`, the key and the decimal numerals of the
/// two indices.
#[verifier::external_body]
pub(crate) fn lrange(key: &str, start: isize, stop: isize) -> (c: Cmd)
    ensures
        cmd_words(c) == words(seq!["LRANGE"@, key@, text::decimal(start as int), text::decimal(stop as int)]),
{
    Cmd::lrange(key, start, stop)
}

/// Calls `redis::pipe`. Claimed: no command, and no transaction.
#[verifier::external_body]
pub(crate) fn pipe() -> (p: Pipeline)
    ensures
        pipeline_commands(p).len() == 0,
        !pipeline_is_atomic(p),
{
    deadpool_redis::redis::pipe()
}

/// Calls `Pipeline::atomic`. Claimed: the pipeline is a transaction afterwards,
/// with the commands that it had.
#[verifier::external_body]
pub(crate) fn atomic(p: &mut Pipeline)
    ensures
        pipeline_is_atomic(*final(p)),
        pipeline_commands(*final(p)) == pipeline_commands(*old(p)),
{
    p.atomic();
}

/// Calls `Pipeline::add_command`. Claimed: the command comes last, with its reply
/// kept; the rest stays as it was.
#[verifier::external_body]
pub(crate) fn add_command(p: &mut Pipeline, c: Cmd)
    ensures
        pipeline_commands(*final(p)) == pipeline_commands(*old(p)).push((cmd_words(c), false)),
        pipeline_is_atomic(*final(p)) == pipeline_is_atomic(*old(p)),
{
    p.add_command(c);
}

/// Calls `Pipeline::ignore`. Claimed: the reply of the last command is dropped; the
/// rest stays as it was.
#[verifier::external_body]
pub(crate) fn ignore(p: &mut Pipeline)
    requires
        pipeline_commands(*old(p)).len() > 0,
    ensures
        pipeline_commands(*final(p)) == pipeline_commands(*old(p)).drop_last().push(
            (pipeline_commands(*old(p)).last().0, true),
        ),
        pipeline_is_atomic(*final(p)) == pipeline_is_atomic(*old(p)),
{
    p.ignore();
}

} // verus!

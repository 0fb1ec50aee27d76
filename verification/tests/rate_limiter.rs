use api_rate_limiting::rate_limiter::{
    is_pipe_result_computable, is_system_result_computable, is_system_window_computable,
    is_window_computable, CheckAction, CheckEvent, CheckStage, PipeAction, PipeEvent, PipeStage,
    RateLimitResult, RateLimiter,
};
use deadpool_redis::redis::{Arg, Cmd, Pipeline};

fn words(c: &Cmd) -> Vec<String> {
    c.args_iter()
        .map(|a| match a {
            Arg::Simple(bytes) => String::from_utf8(bytes.to_vec()).unwrap(),
            _ => panic!("a cursor"),
        })
        .collect()
}

fn pipe_count(max_requests: u32, window_seconds: u64, sec: i64, count: i64) -> RateLimitResult {
    let limiter = RateLimiter::new(());
    let stage = PipeStage::Counting { sec };
    let event = PipeEvent::Counted { count };
    match limiter.check_rate_limit_pipe("k", max_requests, window_seconds, stage, event) {
        (PipeStage::Over, PipeAction::Done(r)) => r,
        _ => panic!("not over"),
    }
}

fn pipeline_at(key: &str, window_seconds: u64, sec: i64, usec: i64) -> Pipeline {
    let limiter = RateLimiter::new(());
    let event = PipeEvent::Time { sec, usec };
    match limiter.check_rate_limit_pipe(key, 5, window_seconds, PipeStage::AskingTime, event) {
        (PipeStage::Counting { sec: s }, PipeAction::Run(p)) => {
            assert_eq!(s, sec);
            p
        }
        _ => panic!("no pipeline"),
    }
}

#[test]
fn limiter_keeps_its_pool() {
    assert_eq!(RateLimiter::new(7).pool, 7);
}

#[test]
fn pipe_check_asks_for_the_time_first() {
    let limiter = RateLimiter::new(());
    match limiter.check_rate_limit_pipe("k", 5, 60, PipeStage::Begin, PipeEvent::Start) {
        (PipeStage::AskingTime, PipeAction::Query(c)) => assert_eq!(words(&c), vec!["TIME"]),
        _ => panic!("no query"),
    }
}

#[test]
fn pipe_check_runs_the_window_commands() {
    let p = pipeline_at("acct", 60, 1_700_000_000, 123_456);
    assert!(p.is_transaction());
    let commands: Vec<Vec<String>> = p.cmd_iter().map(words).collect();
    assert_eq!(
        commands,
        vec![
            vec!["ZREMRANGEBYSCORE", "rate_limit:acct", "0.0", "1699999940123000000"],
            vec!["ZADD", "rate_limit:acct", "1700000000123456000", "1700000000123456000"],
            vec!["ZCOUNT", "rate_limit:acct", "1699999940123000000", "1700000000123456000"],
            vec!["EXPIRE", "rate_limit:acct", "60"],
        ]
    );
}

#[test]
fn pipe_check_keeps_only_the_count() {
    let mut built = deadpool_redis::redis::pipe();
    built
        .atomic()
        .cmd("ZREMRANGEBYSCORE")
        .arg("rate_limit:a")
        .arg(0.0)
        .arg(40_250_000_000i64)
        .ignore()
        .cmd("ZADD")
        .arg("rate_limit:a")
        .arg(100_250_001_000i64)
        .arg(100_250_001_000i64.to_string())
        .ignore()
        .cmd("ZCOUNT")
        .arg("rate_limit:a")
        .arg(40_250_000_000i64)
        .arg(100_250_001_000i64)
        .cmd("EXPIRE")
        .arg("rate_limit:a")
        .arg(60i64)
        .ignore();
    let p = pipeline_at("a", 60, 100, 250_001);
    assert_eq!(p.get_packed_pipeline(), built.get_packed_pipeline());
    let text = format!("{:?}", p);
    let ignored = &text[text.find("ignored_commands").unwrap()..];
    for index in ["0", "1", "3"] {
        assert!(ignored.contains(index));
    }
    assert!(!ignored.contains("2"));
}

#[test]
fn pipe_result_within_the_limit() {
    let r = pipe_count(5, 60, 100, 3);
    assert!(r.allowed);
    assert_eq!(r.remaining, 2);
    assert_eq!(r.reset_at, 160);
}

#[test]
fn pipe_result_at_the_limit() {
    let r = pipe_count(5, 60, 100, 5);
    assert!(r.allowed);
    assert_eq!(r.remaining, 0);
}

#[test]
fn pipe_result_over_the_limit() {
    let r = pipe_count(5, 60, 100, 6);
    assert!(!r.allowed);
    assert_eq!(r.remaining, 0);
    assert_eq!(r.reset_at, 160);
}

#[test]
fn pipe_result_with_the_largest_limit() {
    let r = pipe_count(u32::MAX, 60, 100, 1);
    assert!(r.allowed);
    assert_eq!(r.remaining, u32::MAX - 1);
}

#[test]
fn negative_times_are_truncated_toward_zero() {
    let p = pipeline_at("a", 1, 10, -1500);
    let commands: Vec<Vec<String>> = p.cmd_iter().map(words).collect();
    assert_eq!(commands[0][3], "8999000000");
    assert_eq!(commands[1][2], "9998500000");
}

#[test]
fn whole_stepwise_check_of_an_allowed_request() {
    let limiter = RateLimiter::new(());
    let (stage, action) = limiter.check_rate_limit(
        "acct",
        5,
        60,
        CheckStage::Begin,
        CheckEvent::Start { now_millis: 1_700_000_000_123 },
    );
    match action {
        CheckAction::FormatScore(n) => assert_eq!(n, 1_699_999_940_123_000_000),
        _ => panic!("no score"),
    }
    let window_start = "1699999940123000000.0".to_string();
    let event = CheckEvent::Formatted { window_start };
    let (stage, action) = limiter.check_rate_limit("acct", 5, 60, stage, event);
    match action {
        CheckAction::Query(c) => assert_eq!(
            words(&c),
            vec!["ZREMRANGEBYSCORE", "rate_limit:acct", "0.0", "1699999940123000000.0"]
        ),
        _ => panic!("no query"),
    }
    let now = "1700000000124000000.0".to_string();
    let (stage, action) =
        limiter.check_rate_limit("acct", 5, 60, stage, CheckEvent::Trimmed { now });
    match action {
        CheckAction::Query(c) => assert_eq!(
            words(&c),
            vec!["ZADD", "rate_limit:acct", "1700000000124000000.0", "1700000000124000000.0"]
        ),
        _ => panic!("no query"),
    }
    let (stage, action) = limiter.check_rate_limit("acct", 5, 60, stage, CheckEvent::Recorded);
    match action {
        CheckAction::Query(c) => assert_eq!(
            words(&c),
            vec!["ZCOUNT", "rate_limit:acct", "1699999940123000000.0", "1700000000124000000.0"]
        ),
        _ => panic!("no query"),
    }
    let (stage, action) =
        limiter.check_rate_limit("acct", 5, 60, stage, CheckEvent::Counted { count: 2 });
    match action {
        CheckAction::Query(c) => assert_eq!(words(&c), vec!["EXPIRE", "rate_limit:acct", "60"]),
        _ => panic!("no query"),
    }
    let (stage, action) = limiter.check_rate_limit("acct", 5, 60, stage, CheckEvent::Expired);
    assert!(matches!(stage, CheckStage::Over));
    match action {
        CheckAction::Done(r) => {
            assert!(r.allowed);
            assert_eq!(r.remaining, 3);
            assert_eq!(r.reset_at, 1_700_000_060);
        }
        _ => panic!("not done"),
    }
}

#[test]
fn refused_stepwise_check_ends_with_the_count() {
    let limiter = RateLimiter::new(());
    let stage = CheckStage::Counting { now_millis: 100_999 };
    match limiter.check_rate_limit("k", 5, 60, stage, CheckEvent::Counted { count: 6 }) {
        (CheckStage::Over, CheckAction::Done(r)) => {
            assert!(!r.allowed);
            assert_eq!(r.remaining, 0);
            assert_eq!(r.reset_at, 160);
        }
        _ => panic!("not over"),
    }
}

#[test]
fn stepwise_limit_is_taken_as_a_signed_number() {
    let limiter = RateLimiter::new(());
    let stage = CheckStage::Counting { now_millis: 100_000 };
    match limiter.check_rate_limit("k", u32::MAX, 60, stage, CheckEvent::Counted { count: 0 }) {
        (CheckStage::Over, CheckAction::Done(r)) => assert!(!r.allowed),
        _ => panic!("not over"),
    }
}

#[test]
fn computable_windows() {
    assert!(is_window_computable(1_700_000_000, 999_999, 60));
    assert!(!is_window_computable(i64::MAX, 0, 60));
    assert!(!is_window_computable(0, 0, i64::MAX as u64));
    assert!(is_pipe_result_computable(100, 60, 0, 1));
    assert!(!is_pipe_result_computable(100, 60, -1, 1));
    assert!(!is_pipe_result_computable(100, 60, 0, i64::MIN));
    assert!(is_system_window_computable(1_700_000_000_000, 60));
    assert!(!is_system_window_computable(59_999, 60));
    assert!(!is_system_window_computable(u64::MAX as u128, 60));
    assert!(is_system_result_computable(100, 60, 1_700_000_000_000, 1));
    assert!(!is_system_result_computable(i32::MAX as u32, 60, 0, -1));
    assert!(!is_system_result_computable(100, u64::MAX, 0, 1));
}

#[test]
fn sliding_window_is_enforced_on_a_sequence_of_requests() {
    let max_requests: u32 = 3;
    let window_seconds: u64 = 2;
    let times: Vec<(i64, i64)> = (0..40).map(|k| (k * 3 / 10, (k * 3 % 10) * 100_000 + k)).collect();
    let mut scores: Vec<i64> = Vec::new();
    let mut allowed_at: Vec<i64> = Vec::new();
    for (sec, usec) in times {
        let p = pipeline_at("k", window_seconds, sec, usec);
        let commands: Vec<Vec<String>> = p.cmd_iter().map(words).collect();
        let start: i64 = commands[0][3].parse().unwrap();
        let now: i64 = commands[1][2].parse().unwrap();
        scores.retain(|s| !(0 <= *s && *s <= start));
        scores.push(now);
        let count = scores.iter().filter(|s| start <= **s && **s <= now).count();
        if pipe_count(max_requests, window_seconds, sec, count as i64).allowed {
            allowed_at.push(now);
        }
        let recent = allowed_at.iter().filter(|t| **t > now - 2_000_000_000).count();
        assert!(recent <= 3);
    }
    assert!(!allowed_at.is_empty());
}

#[test]
fn limit_is_enforced_though_the_set_expires() {
    let max_requests: u32 = 2;
    let window_seconds: u64 = 2;
    let gaps_ms: Vec<i64> = vec![0, 700, 700, 2_500, 10, 10, 1_990, 2_000, 2_001, 1, 5_000, 300];
    let mut millis: i64 = 1_700_000_000_000;
    let mut scores: Vec<i64> = Vec::new();
    let mut expires_at: i64 = i64::MAX;
    let mut expiries = 0;
    let mut allowed_at: Vec<i64> = Vec::new();
    for gap in gaps_ms {
        millis += gap;
        if millis > expires_at {
            scores.clear();
            expiries += 1;
        }
        let p = pipeline_at("k", window_seconds, millis / 1000, millis % 1000 * 1000 + 999);
        let commands: Vec<Vec<String>> = p.cmd_iter().map(words).collect();
        let start: i64 = commands[0][3].parse().unwrap();
        let now: i64 = commands[1][2].parse().unwrap();
        scores.retain(|s| !(0 <= *s && *s <= start));
        scores.push(now);
        let count = scores.iter().filter(|s| start <= **s && **s <= now).count();
        expires_at = millis + commands[3][2].parse::<i64>().unwrap() * 1000;
        if pipe_count(max_requests, window_seconds, millis / 1000, count as i64).allowed {
            allowed_at.push(now);
        }
        let recent = allowed_at.iter().filter(|t| **t > now - 2_000_000_000).count();
        assert!(recent <= 2);
    }
    assert_eq!(expiries, 3);
    assert!(allowed_at.len() > 4);
}

#[test]
fn both_checks_agree() {
    let by_server = pipe_count(10, 60, 1_700_000_000, 4);
    let limiter = RateLimiter::new(());
    let stage = CheckStage::Counting { now_millis: 1_700_000_000_999 };
    let (stage, _) = limiter.check_rate_limit("k", 10, 60, stage, CheckEvent::Counted { count: 4 });
    match limiter.check_rate_limit("k", 10, 60, stage, CheckEvent::Expired) {
        (_, CheckAction::Done(r)) => {
            assert_eq!(r.allowed, by_server.allowed);
            assert_eq!(r.remaining, by_server.remaining);
            assert_eq!(r.reset_at, by_server.reset_at);
        }
        _ => panic!("not done"),
    }
}

#[test]
fn both_checks_agree_on_one_set() {
    let limiter = RateLimiter::new(());
    let (sec, usec): (i64, i64) = (1_700_000_000, 999_999);
    let now_millis: u128 = 1_700_000_000_999;
    let p = pipeline_at("k", 60, sec, usec);
    let commands: Vec<Vec<String>> = p.cmd_iter().map(words).collect();
    let start: i64 = commands[0][3].parse().unwrap();
    let now: i64 = commands[1][2].parse().unwrap();
    let (_, action) =
        limiter.check_rate_limit("k", 2, 60, CheckStage::Begin, CheckEvent::Start { now_millis });
    match action {
        CheckAction::FormatScore(n) => assert_eq!(n as i64, start),
        _ => panic!("no window"),
    }
    let mut scores: Vec<i64> = vec![start - 1, start, start + 1, now - 1];
    scores.retain(|s| !(0 <= *s && *s <= start));
    scores.push(now);
    let count = scores.iter().filter(|s| start <= **s && **s <= now).count();
    assert_eq!(count, 3);
    let by_server = pipe_count(2, 60, sec, count as i64);
    let stage = CheckStage::Counting { now_millis };
    let event = CheckEvent::Counted { count: count as i32 };
    match limiter.check_rate_limit("k", 2, 60, stage, event) {
        (_, CheckAction::Done(r)) => {
            assert_eq!((r.allowed, r.remaining), (false, 0));
            assert_eq!(r.allowed, by_server.allowed);
            assert_eq!(r.remaining, by_server.remaining);
            assert_eq!(r.reset_at, by_server.reset_at);
        }
        _ => panic!("not done"),
    }
}

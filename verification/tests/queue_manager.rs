use api_rate_limiting::queue_manager::{
    popped_member, position_in_list, position_of_rank, EnqueueAction, EnqueueEvent, PriorityScore,
    QueueManager, StepwiseAction, StepwiseEvent, HALF_SHARE_NANOS,
};
use deadpool_redis::redis::{Arg, Cmd};

fn words(c: &Cmd) -> Vec<String> {
    c.args_iter()
        .map(|a| match a {
            Arg::Simple(bytes) => String::from_utf8(bytes.to_vec()).unwrap(),
            _ => panic!("a cursor"),
        })
        .collect()
}

fn score(priority: i32, nanos: u128) -> PriorityScore {
    let event = EnqueueEvent::Clock { nanos };
    match QueueManager::new(()).enqueue_with_priority_pipe("q", "d", priority, event) {
        EnqueueAction::Score(s) => s,
        _ => panic!("no score"),
    }
}

fn value(s: PriorityScore) -> f64 {
    let nanos = s.nanos as f64;
    s.base as f64 + nanos / (nanos + HALF_SHARE_NANOS as f64)
}

#[test]
fn manager_keeps_its_pool() {
    assert_eq!(QueueManager::new("pool").pool, "pool");
}

#[test]
fn list_commands() {
    let q = QueueManager::new(());
    assert_eq!(words(&q.enqueue("jobs", "a b")), vec!["RPUSH", "jobs", "a b"]);
    assert_eq!(words(&q.dequeue("jobs")), vec!["LPOP", "jobs"]);
    assert_eq!(words(&q.queue_length("jobs")), vec!["LLEN", "jobs"]);
    assert_eq!(words(&q.get_queue_position("jobs")), vec!["LRANGE", "jobs", "0", "-1"]);
}

#[test]
fn priority_queue_commands() {
    let q = QueueManager::new(());
    assert_eq!(words(&q.priority_queue_length("tx")), vec!["ZCARD", "tx_priority"]);
    assert_eq!(words(&q.dequeue_by_priority("tx")), vec!["ZPOPMIN", "tx_priority", "1"]);
    assert_eq!(
        words(&q.get_priority_queue_order("tx")),
        vec!["ZRANGE", "tx_priority", "0", "-1"]
    );
    assert_eq!(
        words(&q.get_priority_position("tx_priority", "m")),
        vec!["ZRANK", "tx_priority", "m"]
    );
}

#[test]
fn commands_match_those_of_the_redis_crate() {
    let q = QueueManager::new(());
    let built = Cmd::zpopmin("tx_priority", 1);
    assert_eq!(
        q.dequeue_by_priority("tx").get_packed_command(),
        built.get_packed_command()
    );
    let built = Cmd::lpop("tx", None);
    assert_eq!(q.dequeue("tx").get_packed_command(), built.get_packed_command());
}

#[test]
fn enqueue_runs_one_transaction() {
    let q = QueueManager::new(());
    let event = EnqueueEvent::Scored { score: "2695.5".to_string() };
    match q.enqueue_with_priority_pipe("tx", "id-1", 5, event) {
        EnqueueAction::Run(p) => {
            assert!(p.is_transaction());
            let commands: Vec<Vec<String>> = p.cmd_iter().map(words).collect();
            assert_eq!(
                commands,
                vec![
                    vec!["ZADD", "tx_priority", "2695.5", "id-1"],
                    vec!["ZRANK", "tx_priority", "id-1"],
                ]
            );
            let mut built = deadpool_redis::redis::pipe();
            built.atomic().zadd("tx_priority", "id-1", 2695.5).zrank("tx_priority", "id-1");
            assert_eq!(p.get_packed_pipeline(), built.get_packed_pipeline());
        }
        _ => panic!("no pipeline"),
    }
}

#[test]
fn enqueue_reads_the_position() {
    let q = QueueManager::new(());
    match q.enqueue_with_priority_pipe("tx", "d", 0, EnqueueEvent::Ranked { rank: Some(4) }) {
        EnqueueAction::Done(n) => assert_eq!(n, 5),
        _ => panic!("not done"),
    }
    match q.enqueue_with_priority("tx", "d", 0, StepwiseEvent::Ranked { rank: None }) {
        StepwiseAction::Done(n) => assert_eq!(n, 1),
        _ => panic!("not done"),
    }
}

#[test]
fn stepwise_enqueue_adds_and_asks_for_the_rank() {
    let q = QueueManager::new(());
    match q.enqueue_with_priority("tx", "d", 7, StepwiseEvent::Clock { nanos: 9 }) {
        StepwiseAction::Score(s) => {
            assert_eq!(s.base, 993);
            assert_eq!(s.nanos, 9);
        }
        _ => panic!("no score"),
    }
    let event = StepwiseEvent::Scored { score: "993.0".to_string() };
    match q.enqueue_with_priority("tx", "d", 7, event) {
        StepwiseAction::Add(c) => {
            assert_eq!(words(&c), vec!["ZADD", "tx_priority", "993.0", "d"])
        }
        _ => panic!("no query"),
    }
    match q.enqueue_with_priority("tx", "d", 7, StepwiseEvent::Added) {
        StepwiseAction::AskRank(c) => assert_eq!(words(&c), vec!["ZRANK", "tx_priority", "d"]),
        _ => panic!("no query"),
    }
}

#[test]
fn scores_of_the_extreme_priorities() {
    assert_eq!(score(1000, 3).base, 0);
    assert_eq!(score(-1000, 3).base, 2000);
    assert_eq!(score(-1000, 3).nanos, 3);
}

#[test]
fn higher_priority_goes_first() {
    let now = 1_700_000_000_000_000_000u128;
    assert!(value(score(10, now + 1_000_000_000)) < value(score(9, now)));
    assert!(value(score(1, now)) < value(score(-1, now)));
}

#[test]
fn same_priority_is_first_in_first_out() {
    let now = 1_700_000_000_000_000_000u128;
    assert!(value(score(5, now)) < value(score(5, now + 10_000_000)));
    let (first, second) = (score(5, now), score(5, now + 1));
    assert_eq!(first.base, second.base);
    assert!(first.nanos < second.nanos);
}

#[test]
fn no_delay_outweighs_a_step_of_priority() {
    let now = 1_700_000_000_000_000_000u128;
    assert!(value(score(1, now + 2_000_000_000_000_000)) < value(score(0, now)));
    assert!(value(score(1, 4 * now)) < value(score(0, now)));
    assert!(value(score(1, u128::MAX)) < value(score(0, now)));
    assert!(value(score(1000, 4 * now)) < value(score(999, 1)));
    assert!(value(score(-999, 4 * now)) < value(score(-1000, now)));
}

#[test]
fn scores_are_whole_steps_and_a_share_of_one() {
    assert_eq!(HALF_SHARE_NANOS, 2_000_000_000_000_000_000);
    assert_eq!(value(score(0, 0)), 1000.0);
    assert_eq!(value(score(0, HALF_SHARE_NANOS)), 1000.5);
    assert_eq!(value(score(0, 3 * HALF_SHARE_NANOS)), 1000.75);
}

#[test]
fn late_arrivals_are_told_apart() {
    let late = 10_000_000_000_000_000_000u128;
    assert_eq!(score(5, late).nanos, late);
    assert_eq!(score(5, u128::MAX).nanos, u128::MAX);
    assert!(value(score(5, late)) < value(score(5, late + 1_000_000_000)));
    assert!(value(score(5, 10 * late)) < value(score(5, 11 * late)));
}

/// A priority queue as the server keeps it: the lowest score first.
fn add(queue: &mut Vec<(String, f64)>, member: &str, score: PriorityScore) -> Option<i64> {
    queue.retain(|(m, _)| m != member);
    queue.push((member.to_string(), value(score)));
    queue.sort_by(|a, b| a.1.partial_cmp(&b.1).unwrap());
    rank(queue, member)
}

fn rank(queue: &[(String, f64)], member: &str) -> Option<i64> {
    queue.iter().position(|(m, _)| m == member).map(|r| r as i64)
}

fn pop(queue: &mut Vec<(String, f64)>) -> Vec<String> {
    if queue.is_empty() {
        return Vec::new();
    }
    let (member, score) = queue.remove(0);
    vec![member, score.to_string()]
}

#[test]
fn members_come_out_as_listed() {
    let now = 1_700_000_000_000_000_000u128;
    let mut queue: Vec<(String, f64)> = Vec::new();
    add(&mut queue, "low", score(-5, now));
    add(&mut queue, "first", score(0, now + 1_000_000_000));
    add(&mut queue, "second", score(0, now + 2_000_000_000));
    add(&mut queue, "high", score(9, now + 3_000_000_000));
    let listed: Vec<String> = queue.iter().map(|(m, _)| m.clone()).collect();
    assert_eq!(listed, vec!["high", "first", "second", "low"]);
    for member in listed {
        assert_eq!(popped_member(pop(&mut queue)), Some(member));
    }
    assert_eq!(popped_member(pop(&mut queue)), None);
    assert_eq!(popped_member(pop(&mut queue)), None);
}

#[test]
fn position_is_the_place_in_the_list() {
    let now = 1_700_000_000_000_000_000u128;
    let mut queue: Vec<(String, f64)> = Vec::new();
    assert_eq!(position_of_rank(add(&mut queue, "a", score(0, now))), 1);
    assert_eq!(position_of_rank(add(&mut queue, "b", score(0, now + 1_000_000_000))), 2);
    assert_eq!(position_of_rank(add(&mut queue, "c", score(1, now + 2_000_000_000))), 1);
    let n = position_of_rank(rank(&queue, "b"));
    assert_eq!(n, 3);
    assert_eq!(queue[n as usize - 1].0, "b");
    assert_eq!(position_of_rank(rank(&queue, "b")), n);
}

#[test]
fn higher_priority_comes_out_first_in_either_order() {
    let now = 1_700_000_000_000_000_000u128;
    let later = now + 2_000_000_000_000_000;
    let mut queue: Vec<(String, f64)> = Vec::new();
    add(&mut queue, "low", score(0, now));
    add(&mut queue, "high", score(1, later));
    assert_eq!(popped_member(pop(&mut queue)), Some("high".to_string()));
    queue.clear();
    add(&mut queue, "high", score(1, now));
    add(&mut queue, "low", score(0, later));
    assert_eq!(popped_member(pop(&mut queue)), Some("high".to_string()));
}

#[test]
fn ranks_become_positions() {
    assert_eq!(position_of_rank(Some(0)), 1);
    assert_eq!(position_of_rank(Some(41)), 42);
    assert_eq!(position_of_rank(None), 1);
}

#[test]
fn popped_member_is_the_first_of_the_reply() {
    let reply = vec!["id-1".to_string(), "1000.5".to_string()];
    assert_eq!(popped_member(reply), Some("id-1".to_string()));
    assert_eq!(popped_member(Vec::new()), None);
}

#[test]
fn list_is_first_in_first_out() {
    let mut items: Vec<String> = vec!["a".to_string(), "b".to_string()];
    items.push("c".to_string());
    assert_eq!(position_in_list(&items, "c"), Some(3));
    items.remove(0);
    assert_eq!(position_in_list(&items, "c"), Some(2));
    assert_eq!(position_in_list(&items, "b"), Some(1));
}

/// What the server answers to a command on the list `jobs`: a length or a member.
fn answer(list: &mut Vec<String>, c: &Cmd) -> (Option<i64>, Option<String>) {
    let words = words(c);
    assert_eq!(words[1], "jobs");
    match words[0].as_str() {
        "RPUSH" => {
            list.push(words[2].clone());
            (Some(list.len() as i64), None)
        }
        "LPOP" if list.is_empty() => (None, None),
        "LPOP" => (None, Some(list.remove(0))),
        _ => panic!("another command"),
    }
}

#[test]
fn what_is_pushed_comes_out_in_order() {
    let q = QueueManager::new(());
    let data = ["a", "b", "a", "c"];
    let mut list: Vec<String> = Vec::new();
    for (k, d) in data.iter().enumerate() {
        assert_eq!(answer(&mut list, &q.enqueue("jobs", d)).0, Some(k as i64 + 1));
    }
    for d in data {
        assert_eq!(answer(&mut list, &q.dequeue("jobs")).1, Some(d.to_string()));
    }
    assert_eq!(answer(&mut list, &q.dequeue("jobs")).1, None);
    assert_eq!(answer(&mut list, &q.dequeue("jobs")).1, None);
}

#[test]
fn positions_in_a_list() {
    let items: Vec<String> = vec!["a".to_string(), "b".to_string(), "b".to_string()];
    assert_eq!(position_in_list(&items, "a"), Some(1));
    assert_eq!(position_in_list(&items, "b"), Some(2));
    assert_eq!(position_in_list(&items, "c"), None);
    assert_eq!(position_in_list(&Vec::new(), "a"), None);
}

use api_rate_limiting::errors::RedisError;
use api_rate_limiting::intake::{
    accepted, begin_enqueue, handler, Stage, Submission, SubmitAction, SubmitEvent,
};
use api_rate_limiting::rate_limiter::RateLimitResult;
use api_rate_limiting::submit::{DatabaseFailure, SubmitTransactionRequest};
use axum::http::HeaderMap;
use serde_json::Value;
use uuid::{Uuid, Variant, Version};

fn request(priority: Option<i32>) -> SubmitTransactionRequest {
    SubmitTransactionRequest {
        account_id: "acct".to_string(),
        transaction_data: Value::from(1),
        priority,
    }
}

fn header(h: &HeaderMap, name: &str) -> String {
    h.get(name).unwrap().to_str().unwrap().to_string()
}

/// A submission that waits for the outcome of the check.
fn at_check() -> Submission {
    let (s, _) = handler(Submission::new(request(Some(7))), SubmitEvent::Received);
    let (s, _) = handler(s, SubmitEvent::LimitsRead(Ok(Some((5, 60)))));
    s
}

fn allowed() -> RateLimitResult {
    RateLimitResult { allowed: true, remaining: 4, reset_at: 160 }
}

#[test]
fn accepted_request_runs_its_whole_course() {
    let (s, a) = handler(Submission::new(request(Some(7))), SubmitEvent::Received);
    match a {
        SubmitAction::ReadLimits { account_id, limit_type } => {
            assert_eq!(account_id, "acct");
            assert_eq!(limit_type, "api:v1:transactions:submit");
        }
        _ => panic!("no lookup"),
    }
    let (s, a) = handler(s, SubmitEvent::LimitsRead(Ok(Some((5, 60)))));
    match a {
        SubmitAction::CheckRateLimit { key, max_requests, window_seconds } => {
            assert_eq!(key, "rl:acct:api:v1:transactions:submit");
            assert_eq!((max_requests, window_seconds), (5, 60));
        }
        _ => panic!("no check"),
    }
    let (s, a) = handler(s, SubmitEvent::LimitChecked(Ok(allowed())));
    let queued = match a {
        SubmitAction::Enqueue { queue_name, data, priority } => {
            assert_eq!(queue_name, "transactions");
            assert_eq!(priority, 7);
            data
        }
        _ => panic!("not enqueued"),
    };
    let (s, a) = handler(s, SubmitEvent::Enqueued(Ok(3)));
    assert!(matches!(s.stage, Stage::Answered));
    match a {
        SubmitAction::StoreAndAnswer { transaction, response } => {
            assert_eq!(transaction.transaction_id.to_string(), queued);
            assert_eq!(transaction.account_id, "acct");
            assert_eq!(response.status, 200);
            assert_eq!(response.body.transaction_id, transaction.transaction_id);
            assert_eq!(response.body.queue_position, 3);
            assert_eq!(response.body.estimated_processing_time_seconds, 60);
            assert_eq!(response.body.status, "pending");
            assert_eq!(header(&response.headers, "X-RateLimit-Limit"), "5");
            assert_eq!(header(&response.headers, "X-RateLimit-Remaining"), "4");
            assert_eq!(header(&response.headers, "X-RateLimit-Reset"), "160");
        }
        _ => panic!("not answered"),
    }
}

#[test]
fn invalid_request_is_refused_at_once() {
    let (s, a) = handler(Submission::new(request(Some(2000))), SubmitEvent::Received);
    assert!(matches!(s.stage, Stage::Answered));
    match a {
        SubmitAction::Refuse(e) => assert_eq!(e.status, 400),
        _ => panic!("not refused"),
    }
}

#[test]
fn unreadable_limits_are_an_internal_error() {
    let (s, _) = handler(Submission::new(request(None)), SubmitEvent::Received);
    match handler(s, SubmitEvent::LimitsRead(Err(DatabaseFailure))).1 {
        SubmitAction::Refuse(e) => assert_eq!((e.status, e.headers.len()), (500, 0)),
        _ => panic!("not refused"),
    }
}

#[test]
fn account_without_a_row_has_the_default_limit() {
    let (s, _) = handler(Submission::new(request(None)), SubmitEvent::Received);
    match handler(s, SubmitEvent::LimitsRead(Ok(None))).1 {
        SubmitAction::CheckRateLimit { max_requests, window_seconds, .. } => {
            assert_eq!((max_requests, window_seconds), (100, 60))
        }
        _ => panic!("no check"),
    }
}

#[test]
fn exceeded_limit_is_answered_with_the_limit() {
    let r = RateLimitResult { allowed: false, remaining: 0, reset_at: 160 };
    let (s, a) = handler(at_check(), SubmitEvent::LimitChecked(Ok(r)));
    assert!(matches!(s.stage, Stage::Answered));
    match a {
        SubmitAction::Refuse(e) => {
            assert_eq!(e.status, 429);
            assert_eq!(e.headers.len(), 3);
        }
        _ => panic!("not refused"),
    }
}

#[test]
fn failed_check_is_an_internal_error() {
    let event = SubmitEvent::LimitChecked(Err(RedisError::Redis("x".to_string())));
    match handler(at_check(), event).1 {
        SubmitAction::Refuse(e) => {
            assert_eq!((e.status, e.message.as_str()), (500, "rate limit check failed"));
            assert_eq!(header(&e.headers, "X-RateLimit-Limit"), "5");
            assert_eq!(e.headers.len(), 1);
        }
        _ => panic!("not refused"),
    }
}

#[test]
fn failed_enqueue_is_answered_with_the_limit() {
    let (s, _) = handler(at_check(), SubmitEvent::LimitChecked(Ok(allowed())));
    let event = SubmitEvent::Enqueued(Err(RedisError::Redis("x".to_string())));
    match handler(s, event).1 {
        SubmitAction::Refuse(e) => {
            assert_eq!((e.status, e.message.as_str()), (500, "tx enqueing failed"));
            assert_eq!(header(&e.headers, "X-RateLimit-Limit"), "5");
        }
        _ => panic!("not refused"),
    }
}

#[test]
fn transaction_ids_are_random_and_of_version_four() {
    let mut seen: Vec<Uuid> = Vec::new();
    for _ in 0..3 {
        let (s, _) = handler(at_check(), SubmitEvent::LimitChecked(Ok(allowed())));
        match s.stage {
            Stage::Enqueueing { transaction_id, .. } => {
                assert_eq!(transaction_id.get_version(), Some(Version::Random));
                assert_eq!(transaction_id.get_variant(), Variant::RFC4122);
                assert!(!seen.contains(&transaction_id));
                seen.push(transaction_id);
            }
            _ => panic!("not enqueueing"),
        }
    }
}

#[test]
fn queued_text_is_the_hyphenated_id() {
    let id = Uuid::from_u128(0x67e5_5044_10b1_426f_9247_bb68_0e5f_e0c8);
    let (_, a) = begin_enqueue(&request(None), 5, allowed(), HeaderMap::new(), id);
    match a {
        SubmitAction::Enqueue { data, priority, .. } => {
            assert_eq!(data, "67e55044-10b1-426f-9247-bb680e5fe0c8");
            assert_eq!(priority, 0);
        }
        _ => panic!("not enqueued"),
    }
}

#[test]
fn answer_is_capped_at_an_hour() {
    let r = accepted(Uuid::from_u128(1), 500, HeaderMap::new());
    assert_eq!(r.body.estimated_processing_time_seconds, 3600);
    assert_eq!(r.body.queue_position, 500);
}

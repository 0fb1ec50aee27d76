use api_rate_limiting::errors::{AppError, RedisError};
use api_rate_limiting::rate_limiter::RateLimitResult;
use api_rate_limiting::response::ResponseWithHeaders;
use api_rate_limiting::submit::{
    apply_rate_limiting, check_account_id, check_priority, check_serialized,
    construct_rate_limit_headers, enqueue_and_position, estimated_processing_time_seconds,
    get_rate_limit_props, insert_transaction, is_estimate_computable, rate_limit_account_key,
    read_insert, validate_submit_request, DatabaseFailure, SubmitTransactionRequest,
};
use axum::http::HeaderMap;
use serde_json::Value;
use uuid::Uuid;

fn request(account_id: &str, data: Value, priority: Option<i32>) -> SubmitTransactionRequest {
    SubmitTransactionRequest {
        account_id: account_id.to_string(),
        transaction_data: data,
        priority,
    }
}

fn refused(r: Result<(), AppError>) -> (u16, String) {
    match r {
        Err(e) => {
            assert!(e.headers.is_empty());
            (e.status, e.message)
        }
        Ok(()) => panic!("accepted"),
    }
}

fn header(h: &HeaderMap, name: &str) -> String {
    h.get(name).unwrap().to_str().unwrap().to_string()
}

#[test]
fn sound_requests_pass() {
    assert!(validate_submit_request(&request("acct", Value::Bool(true), None)).is_ok());
    assert!(validate_submit_request(&request(" a ", Value::from(1), Some(1000))).is_ok());
    assert!(validate_submit_request(&request("a", Value::from("null"), Some(-1000))).is_ok());
}

#[test]
fn account_id_must_not_be_blank() {
    let message = "Invalid account_id: must be 1-254 characters".to_string();
    for id in ["", "   ", "\t\n", "\u{3000}\u{a0}\u{2003}"] {
        let r = validate_submit_request(&request(id, Value::Bool(true), None));
        assert_eq!(refused(r), (400, message.clone()));
    }
}

#[test]
fn account_id_is_measured_in_characters_without_white_space_around_it() {
    assert!(check_account_id(&"x".repeat(254)).is_ok());
    assert!(check_account_id(&"\u{1f600}".repeat(254)).is_ok());
    assert!(check_account_id(&format!("  {}  ", "x".repeat(254))).is_ok());
    assert_eq!(refused(check_account_id(&"x".repeat(255))).0, 400);
    assert!(check_account_id(&"a b".repeat(84)).is_ok());
    assert_eq!(refused(check_account_id(&"a b".repeat(85))).0, 400);
    assert!(check_account_id("\u{200b}").is_ok());
}

#[test]
fn data_must_not_be_null() {
    let r = validate_submit_request(&request("a", Value::Null, None));
    assert_eq!(refused(r), (400, "transaction_data cannot be null".to_string()));
}

#[test]
fn data_must_take_less_than_one_megabyte() {
    let fits = Value::from("x".repeat(1_048_573));
    assert!(validate_submit_request(&request("a", fits, None)).is_ok());
    let large = Value::from("x".repeat(1_048_574));
    let r = validate_submit_request(&request("a", large, None));
    assert_eq!(
        refused(r),
        (400, "transaction_data is too large (max 1048575 bytes).".to_string())
    );
}

#[test]
fn serialized_length_is_checked() {
    assert!(check_serialized(Some(0)).is_ok());
    assert!(check_serialized(Some(1_048_575)).is_ok());
    assert_eq!(refused(check_serialized(Some(1_048_576))).0, 400);
    assert_eq!(
        refused(check_serialized(None)),
        (
            400,
            "transaction_data contains unsupported or non-serializable values.".to_string()
        )
    );
}

#[test]
fn priority_must_be_in_range() {
    assert!(check_priority(None).is_ok());
    assert!(check_priority(Some(-1000)).is_ok());
    assert!(check_priority(Some(1000)).is_ok());
    let message = "Invalid priority: must be between -1000 and 1000.".to_string();
    assert_eq!(refused(check_priority(Some(1001))), (400, message.clone()));
    let r = validate_submit_request(&request("a", Value::from(1), Some(-1001)));
    assert_eq!(refused(r), (400, message));
}

#[test]
fn first_fault_counts() {
    let r = validate_submit_request(&request("", Value::Null, Some(5000)));
    assert_eq!(refused(r).1, "Invalid account_id: must be 1-254 characters");
    let r = validate_submit_request(&request("a", Value::Null, Some(5000)));
    assert_eq!(refused(r).1, "transaction_data cannot be null");
}

#[test]
fn headers_tell_the_limit() {
    let r = RateLimitResult { allowed: true, remaining: 99, reset_at: 1_700_000_060 };
    let h = construct_rate_limit_headers(100, &r);
    assert_eq!(h.len(), 3);
    assert_eq!(header(&h, "X-RateLimit-Limit"), "100");
    assert_eq!(header(&h, "x-ratelimit-remaining"), "99");
    assert_eq!(header(&h, "X-RateLimit-Reset"), "1700000060");
}

#[test]
fn headers_with_the_largest_numbers() {
    let r = RateLimitResult { allowed: true, remaining: 0, reset_at: u64::MAX };
    let h = construct_rate_limit_headers(u32::MAX, &r);
    assert_eq!(header(&h, "X-RateLimit-Limit"), "4294967295");
    assert_eq!(header(&h, "X-RateLimit-Remaining"), "0");
    assert_eq!(header(&h, "X-RateLimit-Reset"), "18446744073709551615");
}

#[test]
fn limits_of_accounts() {
    assert!(matches!(get_rate_limit_props(Ok(None)), Ok((100, 60))));
    assert!(matches!(get_rate_limit_props(Ok(Some((7, 30)))), Ok((7, 30))));
    assert!(matches!(get_rate_limit_props(Ok(Some((0, -3)))), Ok((1, 1))));
    match get_rate_limit_props(Err(DatabaseFailure)) {
        Err(e) => {
            assert_eq!(e.status, 500);
            assert_eq!(e.message, "reading db failed");
        }
        Ok(_) => panic!("accepted"),
    }
}

#[test]
fn account_keys() {
    assert_eq!(rate_limit_account_key("acct"), "rl:acct:api:v1:transactions:submit");
    assert_ne!(rate_limit_account_key("a"), rate_limit_account_key("b"));
}

#[test]
fn allowed_request_goes_on_with_its_headers() {
    let r = RateLimitResult { allowed: true, remaining: 4, reset_at: 160 };
    match apply_rate_limiting(5, Ok(r)) {
        Ok((result, h)) => {
            assert_eq!(result.remaining, 4);
            assert_eq!(header(&h, "X-RateLimit-Limit"), "5");
        }
        Err(_) => panic!("refused"),
    }
}

#[test]
fn limited_request_is_refused_with_its_headers() {
    let r = RateLimitResult { allowed: false, remaining: 0, reset_at: 160 };
    match apply_rate_limiting(5, Ok(r)) {
        Err(e) => {
            assert_eq!(e.status, 429);
            assert_eq!(e.message, "Rate limit exceeded");
            assert_eq!(header(&e.headers, "X-RateLimit-Limit"), "5");
            assert_eq!(header(&e.headers, "X-RateLimit-Remaining"), "0");
            assert_eq!(header(&e.headers, "X-RateLimit-Reset"), "160");
        }
        Ok(_) => panic!("accepted"),
    }
}

#[test]
fn failures_of_redis_are_internal_errors() {
    match apply_rate_limiting(5, Err(RedisError::Pool("down".to_string()))) {
        Err(e) => {
            assert_eq!(e.status, 500);
            assert!(!e.message.contains("down"));
        }
        Ok(_) => panic!("accepted"),
    }
    match enqueue_and_position(Err(RedisError::Redis("down".to_string()))) {
        Err(e) => {
            assert_eq!(e.status, 500);
            assert_eq!(e.message, "tx enqueing failed");
        }
        Ok(_) => panic!("accepted"),
    }
    assert!(matches!(enqueue_and_position(Ok(3)), Ok(3)));
}

#[test]
fn stored_transaction_copies_the_request() {
    let data: Value = serde_json::from_str("{\"to\":[1,2.5,null]}").unwrap();
    let id = Uuid::from_u128(7);
    let t = insert_transaction(&request(" acct ", data.clone(), Some(3)), id);
    assert_eq!(t.transaction_id, id);
    assert_eq!(t.account_id, " acct ");
    assert_eq!(t.transaction_data, data);
    assert_eq!(t.status, "pending");
}

#[test]
fn estimates() {
    assert_eq!(estimated_processing_time_seconds(1), 0);
    assert_eq!(estimated_processing_time_seconds(2), 30);
    assert_eq!(estimated_processing_time_seconds(120), 3570);
    assert_eq!(estimated_processing_time_seconds(121), 3600);
    assert_eq!(estimated_processing_time_seconds(100_000), 3600);
    assert!(is_estimate_computable(1));
    assert!(!is_estimate_computable(i64::MAX));
    assert!(!is_estimate_computable(i64::MIN));
}

#[test]
fn insert_gives_the_stored_row_back() {
    let id = Uuid::from_u128(7);
    let data = Value::from("x");
    let t = insert_transaction(&request(" acct ", data.clone(), None), id);
    let row = read_insert(Ok(t)).ok().unwrap();
    assert_eq!(row.transaction_id, id);
    assert_eq!(row.account_id, " acct ");
    assert_eq!(row.transaction_data, data);
    assert_eq!(row.status, "pending");
}

#[test]
fn failed_insert_is_an_internal_error() {
    let e = read_insert::<u8>(Err(DatabaseFailure)).err().unwrap();
    assert_eq!((e.status, e.message.as_str()), (500, "db insertion failed"));
    assert_eq!(e.headers.len(), 0);
}

#[test]
fn errors_have_their_status() {
    assert_eq!(AppError::bad_request("m").status, 400);
    assert_eq!(AppError::too_many_requests("m").status, 429);
    let e = AppError::internal_server_error("m");
    assert_eq!((e.status, e.message.as_str()), (500, "m"));
    let r = RateLimitResult { allowed: false, remaining: 0, reset_at: 1 };
    let e = e.with_headers(construct_rate_limit_headers(1, &r));
    assert_eq!((e.status, e.message.as_str(), e.headers.len()), (500, "m", 3));
}

#[test]
fn redis_errors_are_described() {
    assert_eq!(RedisError::Pool("a".to_string()).message(), "Redis pool error: a");
    assert_eq!(RedisError::Redis("b".to_string()).message(), "Redis error: b");
    assert_eq!(RedisError::Serialization("c".to_string()).message(), "Serialization error: c");
    assert_eq!(RedisError::Config("d".to_string()).message(), "Configuration error: d");
}

#[test]
fn response_keeps_its_parts() {
    let r = ResponseWithHeaders::new(200, HeaderMap::new(), "body");
    assert_eq!((r.status, r.headers.len(), r.body), (200, 0, "body"));
}

//! Rate limiting, priority queueing and intake of submitted transactions.
//!
//! Every decision of the service is a verified function here: which commands go
//! to the Redis server, what a reply of the server means, which requests are
//! refused and how each request is answered. The functions do no I/O. The
//! service around them performs the commands and hands the replies back.

pub mod check_laws;
pub mod commands;
pub mod errors;
pub mod intake;
pub mod intake_laws;
pub mod queue_laws;
pub mod queue_manager;
pub mod queueing_laws;
pub mod rate_limit_laws;
pub mod rate_limiter;
pub mod response;
pub mod server;
pub mod submission_laws;
pub mod submit;
pub mod text;
pub mod transaction_id;

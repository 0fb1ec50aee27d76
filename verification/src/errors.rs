//! The errors of the service.

use crate::response;
use crate::text;
use axum::http::HeaderMap;
use vstd::prelude::*;
use vstd::string::*;

verus! {

/// What went wrong with Redis, each with the words of its cause.
#[derive(Debug)]
pub enum RedisError {
    Pool(String),
    Redis(String),
    Serialization(String),
    Config(String),
}

impl RedisError {
    /// The words that describe the error.
    pub open spec fn words(self) -> Seq<char> {
        match self {
            RedisError::Pool(cause) => "Redis pool error: "@ + cause@,
            RedisError::Redis(cause) => "Redis error: "@ + cause@,
            RedisError::Serialization(cause) => "Serialization error: "@ + cause@,
            RedisError::Config(cause) => "Configuration error: "@ + cause@,
        }
    }

    /// Describes the error.
    pub fn message(&self) -> (m: String)
        ensures
            m@ == self.words(),
    {
        match self {
            RedisError::Pool(cause) => text::join("Redis pool error: ", cause.as_str()),
            RedisError::Redis(cause) => text::join("Redis error: ", cause.as_str()),
            RedisError::Serialization(cause) => text::join("Serialization error: ", cause.as_str()),
            RedisError::Config(cause) => text::join("Configuration error: ", cause.as_str()),
        }
    }
}

/// An error as the client sees it: a status code, a message, and header fields.
#[derive(Debug)]
pub struct AppError {
    pub status: u16,
    pub message: String,
    pub headers: HeaderMap,
}

/// `error` has this status, this message and these fields.
pub open spec fn is_error(
    error: AppError,
    status: u16,
    message: Seq<char>,
    entries: Map<Seq<char>, Seq<Seq<u8>>>,
) -> bool {
    &&& error.status == status
    &&& error.message@ == message
    &&& response::header_entries(error.headers) == entries
}

impl AppError {
    fn plain(status: u16, message: &str) -> (error: Self)
        ensures
            is_error(error, status, message@, response::no_entries()),
    {
        AppError { status, message: message.to_owned(), headers: response::new_headers() }
    }

    pub fn bad_request(message: &str) -> (error: Self)
        ensures
            is_error(error, 400, message@, response::no_entries()),
    {
        Self::plain(400, message)
    }

    pub fn too_many_requests(message: &str) -> (error: Self)
        ensures
            is_error(error, 429, message@, response::no_entries()),
    {
        Self::plain(429, message)
    }

    pub fn internal_server_error(message: &str) -> (error: Self)
        ensures
            is_error(error, 500, message@, response::no_entries()),
    {
        Self::plain(500, message)
    }

    /// The same error, with these header fields.
    pub fn with_headers(self, headers: HeaderMap) -> (error: Self)
        ensures
            error.status == self.status,
            error.message == self.message,
            error.headers == headers,
    {
        AppError { status: self.status, message: self.message, headers }
    }
}

} // verus!

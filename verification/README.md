# api_rate_limiting

Rate limiting, priority queueing and intake of submitted transactions, verified
with Verus.

- `src/` is the library. It does no I/O. `rate_limiter` and `queue_manager` decide
  which commands go to Redis and what the replies mean; `submit` holds the rules for
  requests and answers; `intake` runs a submission step by step. `commands`,
  `response`, `transaction_id` and `text` state what the outside crates do.
  `rate_limit_laws`, `queue_laws` and `intake_laws` prove what holds of the whole.
- `app/` is the service around it: it performs the commands, reads and writes the
  database and speaks HTTP.
- `tests/` runs the library with the real outside crates.

# Doorman

Keyed rate limiting for services, verified with Verus.

One `RateLimiter` is one bucket per key with one `Policy` and one unit:

- `RequestRateLimiter`: one unit is one request.
- `DurationBudgetLimiter`: one unit is one millisecond. A zero duration is free, any time below a
  millisecond costs one unit, and a duration that costs more than the burst capacity never fits.

`IpKey` keys limiters by client: IPv4 addresses exactly, IPv6 addresses by their /64 prefix.

The `http` module finds the client of a request behind trusted proxies, and decides what a layer
around an inner service does: strategies judge a request before the inner service runs, account for
it afterwards, and may set a timeout.

## Layout

| Path | Content |
| --- | --- |
| `src/limiter.rs`, `src/policy.rs`, `src/units.rs`, `src/error.rs` | limiters over `governor` buckets |
| `src/key.rs`, `src/addr.rs` | keys, addresses and networks |
| `src/http/extract.rs`, `src/http/headers.rs`, `src/http/text.rs` | the client of a request |
| `src/http/layer.rs`, `src/http/strategy.rs`, `src/http/message.rs` | strategies and the layer |
| `src/time.rs`, `src/nonzero.rs` | durations and counts |
| `app/` | the Tower layer, service and future that carry out the decisions |
| `tests/` | tests of the library |

## What is proved

Every function of `src/` states in its contract what it returns or changes, as far as that does not
rest on the clock. Of `RateLimiter::retain_recent` the contract says only that the buckets are asked
to forget: which keys they forget depends on the clock.

Functions named `law_...` are theorems about several functions together: which keys collide, which
header names the client, what a rejected request is answered, that the strategy accounts for a
request exactly once.

What comes from other crates is stated by the functions marked `external_body` and by the
`assume_specification` items, with a comment on each that says what is claimed. How full a bucket
is depends on the clock and on what other threads charge, so no contract says which of two charges
within the burst capacity is accepted, nor how long a refused one has to wait.

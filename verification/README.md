# practicals

A verified library for a small load balancer, a rate limiter and a telnet
friend database.

- `src/text.rs`: whitespace, tokens, separators, trimming and lines over characters.
- `src/std_text.rs`: the standard library's UTF-8 decoding, case mapping and decimal formatting.
- `src/http_calls.rs`: the `http` and `uuid` crates: requests, header values, random identifiers.
- `src/http_types.rs`: methods, status codes, protocol, content types, header lines.
- `src/request.rs`: reading requests from bytes, gzip support, forwarded requests, the Lamport clock.
- `src/session.rs`: the telnet session's texts, commands, replies and heartbeat.
- `src/rate_limit.rs`: the rate limiter's answer.
- `app/`: sockets, tasks, timers and printing around the library.

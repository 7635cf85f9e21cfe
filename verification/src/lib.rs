//! Request parsing, header inspection, clocks and session logic for a small
//! load balancer, rate limiter and telnet friend database.

pub mod http_calls;
pub mod http_types;
pub mod rate_limit;
pub mod request;
pub mod session;
pub mod std_text;
pub mod text;

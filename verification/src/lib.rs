//! Core of a minimal embeddable HTTP server: a registration surface for
//! routes and middlewares, an exact-match router, the per-connection
//! dispatch pipeline with short-circuiting middlewares and reverse-order
//! post-hooks, and a bounded worker-pool model.
//!
//! The library holds the decision logic; callers supply the handler and
//! middleware callbacks as opaque values and perform the network I/O.

pub mod acceptor;
pub mod cpus;
pub mod dispatch;
pub mod pool;
pub mod server;

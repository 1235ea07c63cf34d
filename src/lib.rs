//! Request admission by credential header, and a bounded dispatch queue that
//! serialises callers onto one service.

pub mod auth;
pub mod buffer;
pub mod message;
pub mod middleware;

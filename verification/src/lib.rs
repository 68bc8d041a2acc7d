//! A verified core for a small HTTP API: an exact route table, fixed
//! responses for the greeting and index routes, a JSON body codec for the
//! user-creation route, and the hardened gateway behaviour of the
//! user-info route. All I/O stays outside; every function here maps plain
//! request data to a response, with its behaviour stated in its contract.

pub mod http;
pub mod text;
pub mod handlers;
pub mod router;
pub mod json;
pub mod encode;
pub mod users;
pub mod auth;
pub mod laws;

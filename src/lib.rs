//! The core of a multi-tenant feature-flag service: a cache-coherent store of
//! wire values in front of a shared hash server, the flag, path and user
//! records it holds, credential checks and session claims, and the decisions
//! of the request handlers. Talking to the server and to HTTP clients is left
//! to the caller, which carries out the commands this library hands out.

pub mod api;
pub mod api_error;
pub mod auth;
pub mod clock;
pub mod config;
pub mod credential;
pub mod error;
pub mod flag;
pub mod hash_cache;
pub mod order;
pub mod store;
pub mod str_map;
pub mod user;

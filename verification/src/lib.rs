//! A browser-emulating HTTP request engine: pooled, profile-keyed HTTP
//! clients, a cookie jar guarded by public-suffix-aware domain validation,
//! bounded response-body capture, and a typed error taxonomy.
//!
//! The verified core lives here; the asynchronous network driver around it
//! is ordinary Rust that feeds this library plain values.

pub mod body;
pub mod cookie;
pub mod error;
pub mod executor;
pub mod json;
pub mod pool;
pub mod request;
pub mod response;
pub mod text;

//! A local chat-completion gateway: prompt templating, response sanitation,
//! request validation, rate limiting, metrics and streaming decisions, all
//! verified. The HTTP server, the engine subprocess and the async plumbing
//! live outside this library and drive it with plain values.
pub mod text;
pub mod dto;
pub mod template;
pub mod error;
pub mod rate_limiter;
pub mod observability;
pub mod engine;
pub mod streaming;
pub mod handler;
pub mod config;

//! Verified core of a small collection of Rust learning projects: an
//! image-generation client (configuration, server-sent event framing,
//! stream event handling and cost accounting), a greeter, a Fibonacci
//! routine and the decision logic of a number guessing game.

pub mod greeter;
pub mod sse;
pub mod text;
pub mod pricing;
pub mod config;
pub mod openai;
pub mod fibonacci;
pub mod guessing;
pub mod listing;

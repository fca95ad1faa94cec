//! Verified core of the granite agent CLI.
use vstd::prelude::*;

pub mod text;
pub mod message;
pub mod context;
pub mod tools;
pub mod agent;
pub mod args;
pub mod commands;
pub mod config;
pub mod stream;
pub mod bash;
pub mod chat;
pub mod gemini;
pub mod ollama;
pub mod groq;
pub mod outputs;
pub mod screen;
pub mod http;
pub mod boxes;
pub mod framing;

verus! {
}

//! A proxy that makes Microsoft Foundry Local reachable as an OpenAI-compatible API.
//!
//! The crate holds what the application decides and computes. Listening, sending, drawing
//! the window and talking to the service are left to the caller: a function here takes what
//! was read and gives what is to be done.

pub mod app;
pub mod cli;
pub mod config;
pub mod foundry;
pub mod icon;
pub mod json;
pub mod proxy;
pub mod text;
pub mod token;

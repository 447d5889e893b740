//! A playground for talking to large language models: provider profiles,
//! tokens, request payloads, token accounting and a deterministic swarm that
//! drives a task through its lifecycle.
use vstd::prelude::*;

pub mod chat;
pub mod cli;
pub mod config;
pub mod dist;
pub mod errors;
pub mod json;
pub mod mcp;
pub mod pricing;
pub mod providers;
pub mod secrets;
pub mod text;
pub mod text_map;
pub mod toon_codec;
pub mod web;

verus! {

}

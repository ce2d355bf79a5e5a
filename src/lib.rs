//! A context-assistance library for coding assistants: a persistent library of
//! curated code patterns with scored search, the rules that keep framework tags
//! safe as file names, a self-detecting stdio frame codec and the JSON-RPC
//! routing decisions around them.
use vstd::prelude::*;

pub mod analyzer;
pub mod bignum;
pub mod codec;
pub mod config;
pub mod context;
pub mod detector;
pub mod dotnet;
pub mod laws;
pub mod lines;
pub mod manifest;
pub mod ranking;
pub mod rpc;
pub mod scoring;
pub mod store_index;
pub mod text;
pub mod training;
pub mod types;
pub mod validate;

verus! {

} // verus!

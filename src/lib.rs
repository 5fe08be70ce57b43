//! Web search aggregation: a time-bounded result cache and an orchestrator that
//! tries interchangeable search providers in order, with retries and fallback.

pub mod text;
pub mod cli;
pub mod results;
pub mod error;
pub mod config;
pub mod cache;
pub mod providers;
pub mod search;
pub mod adapters;
pub mod output;
pub mod fetch;
pub mod mcp;
pub mod html;
pub mod locations;

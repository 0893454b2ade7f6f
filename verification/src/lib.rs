//! A local DNS proxy core: wire codec, domain filter, response cache and the
//! per-query decisions that tie them together.

pub mod cache;
pub mod config;
pub mod dns;
pub mod domain;
pub mod filter;
pub mod http;
pub mod listener;
pub mod text;

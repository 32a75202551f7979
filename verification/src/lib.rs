//! A quote service: a table of the latest known price per symbol, the rules
//! by which it is refreshed, and the request handling that serves it.

pub mod cache;
pub mod instant;
pub mod pool;
pub mod quote;
pub mod refresher;
pub mod service;
pub mod source;
pub mod text;
pub mod web;

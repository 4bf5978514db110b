//! Verified core of the Taiwan stock crawler's operator interfaces: the
//! Telegram notifier, the manual backfill job board and its request
//! parsers, and the parameter rules of the read-only data API.
pub mod text;
pub mod telegram;
pub mod calendar;
pub mod order;
pub mod decimal;
pub mod job_board;
pub mod cagr;
pub mod api;
pub mod market;
pub mod screening;
pub mod fundamentals;
pub mod symbols;
pub mod backfill;
pub mod auth;
pub mod rpc;
pub mod backfill_page;
pub mod stocks;

//! A verified leaderboard service: players claim names with bearer tokens,
//! update their scores, and read a ranking, while a ban registry, a rate
//! limiter and an anti-cheat threshold gate every write.

pub mod bans;
pub mod kvlist;
pub mod laws;
pub mod limiter;
pub mod service;
pub mod store;
mod token;

pub use kvlist::KvList;

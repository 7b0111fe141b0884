//! The synchronisation engine of a trade copier: a store of the trades that
//! master accounts report, a journal of what was delivered to each slave
//! account, and the rule that decides what a slave is sent when it polls.

pub mod config;
pub mod db;
pub mod errors;
pub mod guarantees;
pub mod handlers;
pub mod models;

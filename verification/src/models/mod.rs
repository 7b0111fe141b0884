pub mod datetime;
pub mod trade;

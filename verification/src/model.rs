pub mod reservoir;
pub mod units;
pub mod valve;

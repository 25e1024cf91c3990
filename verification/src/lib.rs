//! A charlieplexed LED sign: the scan that lights one cell at a time, and the
//! animation that changes the picture once per tick.

pub mod animation;
pub mod bank;
pub mod button;
pub mod driver;
pub mod error;
pub mod line;
pub mod mailbox;
pub mod scan;
pub mod sign;
pub mod tick;
pub mod wiring;

pub mod events;
pub mod guarantees;
pub mod runner;
pub mod unit;
pub mod unitmanager;
pub mod units;

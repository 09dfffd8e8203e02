//! Verified core of a Raspberry Pi plant-watering and sensor toolkit.
//!
//! The hardware, database, network and clock work lives with the caller; this
//! library holds the decisions and data transformations, each with a contract.
mod sensors_core;

pub mod dashboard;
pub mod decimal;
pub mod demo;
pub mod dht11;
pub mod frontend;
pub mod lcd;

pub mod sensors;

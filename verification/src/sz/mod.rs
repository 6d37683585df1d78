//! The gateway of the Shenzhen exchange.
pub mod answers;
pub mod connection;
pub mod desk;
pub mod fields;
pub mod filings;
pub mod log;
pub mod manual;
pub mod protocol;
pub mod receipts;
pub mod session;
pub mod shown;
pub mod strategy;

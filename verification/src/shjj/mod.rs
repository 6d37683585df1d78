//! The auction gateway of the Shanghai exchange.
pub mod answers;
pub mod connection;
pub mod desk;
pub mod fields;
pub mod log;
pub mod manual;
pub mod protocol;
pub mod session;
pub mod shown;
pub mod strategy;

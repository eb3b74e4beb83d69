//! Order execution core for an exchange trading bot: request signing, record
//! encoding, pattern classification, position accounting and the snipe flow.
pub mod decimal;
pub mod signing;
pub mod models;
pub mod detector;
pub mod records;
pub mod store;
pub mod exchange;
pub mod sniper;
pub mod trading;
pub mod manager;
pub mod bot;
pub mod status;

pub mod auth;
pub mod bits;
pub mod book_laws;
pub mod clock;
pub mod config;
pub mod env_file;
pub mod execution;
pub mod feed_laws;
pub mod json;
pub mod market_data;
pub mod market_finder;
pub mod message_laws;
pub mod order_laws;
pub mod orders;
pub mod quote_laws;
pub mod risk;
pub mod risk_laws;
pub mod session;
pub mod session_laws;
pub mod settings_laws;
pub mod strategy;
pub mod text;
pub mod ws;

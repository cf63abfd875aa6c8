//! A price-level order book fed by exchange depth updates, the bounded
//! buffers that carry those updates, and a fixed-capacity channel.

pub mod channel;
pub mod errors;
pub mod config;
pub mod objects;
pub mod ring_buffer;
pub mod orderbook;
pub mod market;
pub mod order;
pub mod controller;
pub mod market_maker;
pub mod stream;
pub mod binance;

//! Settings of the order book, its buffers, the exchanges and the quote server.

use vstd::prelude::*;

verus! {

/// Sizes of the depth ring buffer and of the channel that feeds it.
#[derive(Clone, Debug)]
pub struct RingBufferConfig {
    pub ring_buffer_size: usize,
    pub channel_buffer_size: usize,
}

/// Shape of the book: `depth` levels on each side of `mid_price` (whole
/// units), `tick_size` apart (in thousandths).
#[derive(Clone, Debug)]
pub struct OrderbookConfig {
    pub ring_buffer: RingBufferConfig,
    pub exchange_count: i64,
    pub depth: i64,
    pub mid_price: i64,
    pub tick_size: u64,
    pub ticker: String,
}

/// How to reach one exchange.
#[derive(Clone, Debug)]
pub struct ExchangeConfig {
    pub client_name: String,
    pub exchange_name: u8,
    pub snapshot_enabled: bool,
    pub snapshot_uri: String,
    pub ws_uri: String,
    pub ws_poll_rate_milliseconds: u8,
    pub http_client: bool,
    pub depth: u64,
    pub buffer_size: usize,
    pub watched_pair: String,
    pub ignore_snapshot_websocket: Option<bool>,
}

/// Where the quote server listens.
#[derive(Clone, Debug)]
pub struct GRPCServerConfig {
    pub host_uri: String,
}

} // verus!

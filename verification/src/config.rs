use vstd::prelude::*;

verus! {

/// Default WebSocket URL for market data
pub const DEFAULT_MARKET_WS_URL: &'static str = "wss://ws-subscriptions-clob.polymarket.com/ws/market";

/// Default WebSocket URL for user events
pub const DEFAULT_USER_WS_URL: &'static str = "wss://ws-subscriptions-clob.polymarket.com/ws/user";

/// Maximum reconnection backoff duration in seconds
pub const MAX_BACKOFF_SECS: u64 = 30;

/// Initial reconnection backoff duration in seconds
pub const INITIAL_BACKOFF_SECS: u64 = 1;

} // verus!

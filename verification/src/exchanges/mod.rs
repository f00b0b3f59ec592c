//! What the venue connectors compute: request addresses, quotes read from an
//! order book, and the fixed quotes of the venues that are not wired up.
//! Sending the request and awaiting the answer is left to the caller.

pub mod binance;
pub mod coinbase;
pub mod kraken;

//! A verified core for a streaming blockchain transaction monitor.
//!
//! The library holds the logic of the monitor: validating the target
//! account address, filtering resolved transactions against it, converting
//! wei values to a decimal ether representation, and the reconnection
//! state machine that survives connection loss. The surrounding binary
//! performs the network I/O and feeds plain values into these functions.

pub mod address;
pub mod config;
pub mod listener;
pub mod manager;
pub mod processor;
pub mod units;

pub use address::Address;
pub use address::ParseError;
pub use address::parse_address;
pub use config::Config;
pub use listener::Listener;
pub use units::EthAmount;
pub use units::convert_wei_to_eth;

//! Startup configuration: the node URL and the validated target address.
//! Argument parsing itself is glue around the library; what is checked
//! here is the one fatal startup rule, that the address text is a
//! well-formed hex-encoded 20-byte identifier.

use vstd::prelude::*;
use crate::address::Address;
use crate::address::ParseError;
use crate::address::decoded_address;
use crate::address::parse_address;
use crate::address::valid_address_input;

verus! {

/// Which push feed to subscribe to: a deployment decision, not a
/// per-request one. Both feeds run through the same filtering; they
/// differ only in how a pushed item resolves to transaction records.
#[derive(Clone, Copy, Debug, PartialEq, Eq, Structural)]
pub enum FeedMode {
    /// Pending-transaction hashes: low latency, but a transaction that
    /// never reaches this node's mempool gossip is missed.
    PendingTransactions,
    /// New block headers: every confirmed transaction is seen, though
    /// only after confirmation.
    NewBlockHeaders,
}

/// What the core consumes from the excluded command-line layer.
pub struct Config {
    pub ws_url: String,
    pub target_address: Address,
    pub mode: FeedMode,
}

impl Config {
    /// Builds the configuration from the raw startup inputs. Succeeds
    /// exactly when the address text is well formed; a malformed address
    /// is the one fatal startup error.
    pub fn from_parts(ws_url: String, address_input: &[u8], mode: FeedMode) -> (r: Result<
        Config,
        ParseError,
    >)
        ensures
            r is Ok <==> valid_address_input(address_input@),
            r is Ok ==> r->Ok_0.ws_url@ == ws_url@ && r->Ok_0.mode == mode
                && r->Ok_0.target_address.wf()
                && r->Ok_0.target_address@ == decoded_address(address_input@),
    {
        match parse_address(address_input) {
            Ok(target_address) => Ok(Config { ws_url, target_address, mode }),
            Err(e) => Err(e),
        }
    }
}

} // verus!

//! The listener ties the pieces together: it holds the node URL and the
//! target address for the life of the run, and filters whatever the feed
//! resolves against that one address. The surrounding runtime owns the
//! sockets; everything it hands over arrives here as plain values.

use vstd::prelude::*;
use crate::address::Address;
use crate::config::Config;
use crate::config::FeedMode;
use crate::processor::FeedItem;
use crate::processor::StepOutput;
use crate::processor::fault_views;
use crate::processor::feed_faults;
use crate::processor::feed_notifications;
use crate::processor::item_faults;
use crate::processor::item_notifications;
use crate::processor::notification_views;
use crate::processor::process_feed;
use crate::processor::process_item;

verus! {

/// The immutable heart of a run: where to connect and whom to watch.
/// Neither changes after construction.
pub struct Listener {
    ws_url: String,
    target_address: Address,
    mode: FeedMode,
}

/// What a listener is, mathematically.
pub ghost struct ListenerModel {
    pub ws_url: Seq<char>,
    pub target_address: Seq<u8>,
    pub mode: FeedMode,
}

impl View for Listener {
    type V = ListenerModel;

    closed spec fn view(&self) -> ListenerModel {
        ListenerModel {
            ws_url: self.ws_url@,
            target_address: self.target_address@,
            mode: self.mode,
        }
    }
}

impl Listener {
    /// Takes the configuration's URL, address and feed mode, unchanged.
    pub fn new(config: &Config) -> (r: Listener)
        ensures
            r@.ws_url == config.ws_url@,
            r@.target_address == config.target_address@,
            r@.mode == config.mode,
    {
        Listener {
            ws_url: config.ws_url.clone(),
            target_address: config.target_address.clone(),
            mode: config.mode,
        }
    }

    /// The feed this run subscribes to.
    pub fn mode(&self) -> (r: FeedMode)
        ensures
            r == self@.mode,
    {
        self.mode
    }

    /// The node URL to connect to.
    pub fn ws_url(&self) -> (r: &str)
        ensures
            r@ == self@.ws_url,
    {
        self.ws_url.as_str()
    }

    /// The one address every recipient is compared against.
    pub fn target_address(&self) -> (r: &Address)
        ensures
            r@ == self@.target_address,
    {
        &self.target_address
    }

    /// Processes one resolved feed item against the target address.
    pub fn process_item(&self, item: &FeedItem) -> (r: StepOutput)
        ensures
            notification_views(r.notifications@) == item_notifications(item@, self@.target_address),
            fault_views(r.faults@) == item_faults(item@),
    {
        process_item(item, &self.target_address)
    }

    /// Processes a whole stretch of the feed against the target address.
    pub fn process_feed(&self, items: &Vec<FeedItem>) -> (r: StepOutput)
        ensures
            notification_views(r.notifications@) == feed_notifications(
                items@.map_values(|it: FeedItem| it@),
                self@.target_address,
            ),
            fault_views(r.faults@) == feed_faults(items@.map_values(|it: FeedItem| it@)),
    {
        process_feed(items, &self.target_address)
    }
}

} // verus!

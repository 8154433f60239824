//! Stock watching for product-catalog pages: extraction of product entries
//! from a fetched page, change detection against the last observation, the
//! notification text, and the store of subscribers.

use vstd::prelude::*;

pub mod commands;
pub mod config;
pub mod extract;
pub mod notify;
pub mod order;
pub mod product;
pub mod store;

verus! {

/// What the command handlers and the site watchers share.
pub struct Data {
    pub subscribers: store::SubscriberStore,
}

impl Data {
    /// The shared state around the subscribers `subscribers`.
    pub fn new(subscribers: store::SubscriberStore) -> (data: Data)
        ensures
            data.subscribers == subscribers,
    {
        Data { subscribers }
    }
}

} // verus!

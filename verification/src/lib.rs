//! Provider-neutral market data routing, request shaping and strategy
//! bookkeeping, with the decisions verified by Verus.
use vstd::prelude::*;

pub mod adapters;
pub mod assets;
pub mod builder;
pub mod cache;
pub mod http_client;
pub mod ml;
pub mod optimization;
pub mod reports;
pub mod requests;
pub mod retry;
pub mod routing;
pub mod source;
pub mod storage;
pub mod text;
pub mod throttling;
pub mod yahoo;

verus! {

} // verus!

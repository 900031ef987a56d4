//! A queue of URLs that remote clients propose for crawling.
//!
//! Every URL is reduced to its origin, each submitter is throttled by the
//! time of its latest accepted submission, an origin is queued at most once,
//! and the crawler takes the whole queue in one step.

pub mod error;
pub mod laws;
pub mod limiter;
pub mod model;
pub mod origin;
pub mod queue;
pub mod search;
pub mod store;
pub mod vhost;

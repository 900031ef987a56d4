use vstd::prelude::*;
use crate::error::SubmitError;
use crate::origin::{origin_of, text_of};
use crate::store::{texts_of, SubmissionStore};

verus! {

/// The rate window of a caller that names none: no limit.
pub const DEFAULT_RATE_LIMIT_SECONDS: u64 = 0;

/// The window that an intake runs under.
pub open spec fn window_of(rate_limit_seconds: Option<u64>) -> u64 {
    match rate_limit_seconds {
        Some(seconds) => seconds,
        None => DEFAULT_RATE_LIMIT_SECONDS,
    }
}

/// Submits `url` for the client `ip` at the time `now`, in seconds since the
/// epoch, and answers the origin that was queued. Without a rate window the
/// limiter is off. The table is made if the store has none yet, unless the
/// text is refused as holding no origin: then the store is not touched.
pub fn add_url(
    store: &mut SubmissionStore,
    url: &str,
    ip: u32,
    rate_limit_seconds: Option<u64>,
    now: u64,
) -> (r: Result<String, SubmitError>)
    ensures
        final(store)@ == old(store)@.submit(
            origin_of(url),
            ip,
            window_of(rate_limit_seconds),
            now,
        ).state,
        text_of(r) == old(store)@.submit(
            origin_of(url),
            ip,
            window_of(rate_limit_seconds),
            now,
        ).result,
        final(store)@.wf(),
{
    let window_seconds = match rate_limit_seconds {
        Some(seconds) => seconds,
        None => DEFAULT_RATE_LIMIT_SECONDS,
    };
    store.submit(url, ip, window_seconds, now)
}

/// Answers every queued origin, oldest first, and empties the store, making
/// its table if it has none yet. An empty store answers an empty list.
pub fn get_urls(store: &mut SubmissionStore) -> (urls: Vec<String>)
    ensures
        final(store)@ == old(store)@.drain().state,
        texts_of(urls@) == old(store)@.drain().result,
        urls@.len() == old(store)@.rows.len(),
        final(store)@.wf(),
{
    store.drain()
}

/// Makes the store's table if it has none yet, and changes nothing else.
pub fn create_db(store: &mut SubmissionStore)
    ensures
        final(store)@ == old(store)@.provision(),
        final(store)@.wf(),
{
    store.ensure_schema()
}

} // verus!

use vstd::prelude::*;

use crate::my_screen_service::Refresh;

verus! {

#[derive(Clone, Copy, Debug, PartialEq, Eq, Structural)]
pub enum HttpMethod {
    Get,
    Post,
}

/// An HTTP request that a source asks to be made for it: the owner of the
/// network performs it and hands the response body back to `update`.
#[derive(Debug, PartialEq)]
pub struct FetchRequest {
    pub method: HttpMethod,
    pub url: String,
    /// The XML body to send, if any.
    pub body: Option<String>,
    /// The bearer credential to send, if any.
    pub bearer: Option<String>,
}

/// What the scheduler needs of a source: the request to make (none in dummy
/// mode), what its outcome writes, and when to poll again. Each updater
/// states the exact behaviour of these on its own methods of the same names.
pub trait DataUpdater {
    /// The request to make at `now_millis` (milliseconds since the Unix epoch).
    fn next_request(&self, now_millis: i64) -> Option<FetchRequest>;

    /// Takes in the response body (`None` where the request failed or none
    /// was made) at `now` (Unix seconds), and gives what to write to the
    /// store; the store's lock is not needed for this.
    fn poll(&mut self, fetched: Option<String>, now: i64) -> Refresh;

    /// When to poll next, asked at `now`.
    fn get_next_update_time(&self, now: i64) -> i64;
}

} // verus!

//! Reply awaiter: the decision core of the poll loop that waits for the
//! next message after a send.
//!
//! The loop itself performs network polls and sleeps, which the caller
//! runs; the functions here decide, from the poll outcome and the
//! elapsed wall-clock seconds, whether the loop is done and how long to
//! suspend before the next poll. The backoff tier is recomputed from the
//! elapsed time on every iteration, so a long wait converges to the
//! coarsest tier and stays there. The loop has no timeout: it only ends
//! when a reply exists.

use vstd::prelude::*;

verus! {

/// A message descriptor as the remote service reports it: identifiers
/// and author fields, all carried as plain bytes.
#[derive(Debug, Clone, PartialEq)]
pub struct Reply {
    /// The message's identifier.
    pub id: Vec<u8>,
    /// The channel the message stands in.
    pub channel_id: Vec<u8>,
    /// The server the message was seen on, when the service reports one.
    pub guild_id: Option<Vec<u8>>,
    /// The author's identifier.
    pub author_id: Vec<u8>,
    /// The author's global username.
    pub username: Vec<u8>,
    /// The author's discriminator.
    pub discriminator: Vec<u8>,
    /// The message text.
    pub content: Vec<u8>,
}

/// The poll interval, in seconds, that the backoff table selects for a
/// given elapsed time since the loop began.
pub open spec fn backoff_spec(elapsed: u64) -> u64 {
    if elapsed > 900 {
        60
    } else if elapsed > 180 {
        15
    } else if elapsed > 15 {
        5
    } else {
        1
    }
}

/// Selects the poll interval for the elapsed seconds since the loop
/// began: up to 15 s poll every second, up to 180 s every 5 s, up to
/// 900 s every 15 s, beyond that every 60 s.
pub fn backoff_interval(elapsed: u64) -> (r: u64)
    ensures
        r == backoff_spec(elapsed),
        elapsed <= 15 ==> r == 1,
        15 < elapsed && elapsed <= 180 ==> r == 5,
        180 < elapsed && elapsed <= 900 ==> r == 15,
        900 < elapsed ==> r == 60,
{
    if elapsed > 900 {
        60
    } else if elapsed > 180 {
        15
    } else if elapsed > 15 {
        5
    } else {
        1
    }
}

/// What the await loop does next: hand the found reply out, or suspend
/// for the given number of seconds and poll again.
#[derive(Debug, PartialEq)]
pub enum PollStep {
    /// A strictly-later message exists; the loop is done.
    Found(Reply),
    /// No new message yet; sleep this many seconds, then poll again.
    Sleep(u64),
}

/// Decides one iteration of the await loop: a non-empty poll ends the
/// loop with exactly that reply; an empty poll selects the backoff
/// interval for the elapsed time.
pub fn await_step(poll: Option<Reply>, elapsed: u64) -> (r: PollStep)
    ensures
        poll matches Some(m) ==> r == PollStep::Found(m),
        poll is None ==> r == PollStep::Sleep(backoff_spec(elapsed)),
{
    match poll {
        Some(m) => PollStep::Found(m),
        None => PollStep::Sleep(backoff_interval(elapsed)),
    }
}

/// Replays the await loop against prerecorded poll outcomes and elapsed
/// times, as a fake poll source and a fake clock would produce them.
/// Hands back the position of the first poll that found a reply —
/// after which no further outcome is read — together with the interval
/// the backoff table selected after each empty poll before it.
pub fn await_replay(polls: &Vec<Option<Reply>>, elapsed: &Vec<u64>) -> (r: (
    Option<usize>,
    Vec<u64>,
))
    requires
        polls@.len() == elapsed@.len(),
    ensures
        r.0 matches Some(k) ==> k < polls@.len() && polls@[k as int] is Some && r.1@.len()
            == k && (forall|m: int| 0 <= m < k ==> polls@[m] is None),
        r.0 is None ==> r.1@.len() == polls@.len() && (forall|m: int|
            0 <= m < polls@.len() ==> polls@[m] is None),
        forall|m: int| 0 <= m < r.1@.len() ==> r.1@[m] == backoff_spec(elapsed@[m]),
{
    let n = polls.len();
    let mut intervals: Vec<u64> = Vec::new();
    let mut k: usize = 0;
    while k < n
        invariant
            n == polls@.len() == elapsed@.len(),
            k <= n,
            intervals@.len() == k,
            forall|m: int| 0 <= m < k ==> polls@[m] is None,
            forall|m: int| 0 <= m < k ==> intervals@[m] == backoff_spec(elapsed@[m]),
        decreases n - k,
    {
        match &polls[k] {
            Some(_) => {
                return (Some(k), intervals);
            },
            None => {
                intervals.push(backoff_interval(elapsed[k]));
            },
        }
        k = k + 1;
    }
    (None, intervals)
}

} // verus!

//! Credential resolver: orders the token discovery strategies and
//! resolves the first that succeeds.
//!
//! The strategies run strictly in order — explicit argument, then the
//! environment variable, then the token scanner over the desktop chat
//! application's local-storage directory, then over the browser
//! profile's — and a later one runs only when every earlier one came up
//! empty. The caller performs each lookup and feeds its outcome back;
//! the state machine here decides what to try next.

use vstd::prelude::*;

verus! {

/// Where the resolver stands: the next strategy to try, the resolved
/// token, or failure after every strategy came up empty.
#[derive(Debug, PartialEq)]
pub enum ResolveState {
    /// Try the token given as an explicit argument.
    TryExplicit,
    /// Try the environment variable.
    TryEnv,
    /// Scan the desktop chat application's local-storage directory.
    TryAppDir,
    /// Scan the browser profile's local-storage directory.
    TryBrowserDir,
    /// A strategy produced this token; resolution is over.
    Done(Vec<u8>),
    /// Every strategy came up empty; resolution failed.
    Failed,
}

/// Advances the resolver by one strategy: a token ends resolution with
/// exactly that token; an empty outcome moves to the next strategy in
/// the fixed order, and past the last one to failure. The terminal
/// states stay where they are.
pub fn resolve_step(state: ResolveState, outcome: Option<Vec<u8>>) -> (r: ResolveState)
    ensures
        !(state is Done) && !(state is Failed) ==> (outcome matches Some(t) ==> r
            == ResolveState::Done(t)),
        state is TryExplicit && outcome is None ==> r is TryEnv,
        state is TryEnv && outcome is None ==> r is TryAppDir,
        state is TryAppDir && outcome is None ==> r is TryBrowserDir,
        state is TryBrowserDir && outcome is None ==> r is Failed,
        state is Done || state is Failed ==> r == state,
{
    match state {
        ResolveState::Done(t) => ResolveState::Done(t),
        ResolveState::Failed => ResolveState::Failed,
        _ => match outcome {
            Some(t) => ResolveState::Done(t),
            None => match state {
                ResolveState::TryExplicit => ResolveState::TryEnv,
                ResolveState::TryEnv => ResolveState::TryAppDir,
                ResolveState::TryAppDir => ResolveState::TryBrowserDir,
                _ => ResolveState::Failed,
            },
        },
    }
}

/// The user-facing message reported when every discovery strategy came
/// up empty, naming all attempted sources.
pub fn token_not_found_message() -> (r: &'static str)
    ensures
        r@ == ("discord token not found, set environment variable DISCORD_TOKEN, pass in as argument, or login to discord on desktop app or on chrome")@,
{
    "discord token not found, set environment variable DISCORD_TOKEN, pass in as argument, or login to discord on desktop app or on chrome"
}

} // verus!

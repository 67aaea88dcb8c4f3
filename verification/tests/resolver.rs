use cliscord::resolver::{resolve_step, token_not_found_message, ResolveState};

#[test]
fn explicit_token_wins_immediately() {
    let r = resolve_step(ResolveState::TryExplicit, Some(b"tok-a".to_vec()));
    assert_eq!(r, ResolveState::Done(b"tok-a".to_vec()));
}

#[test]
fn strategies_run_in_order() {
    let s = resolve_step(ResolveState::TryExplicit, None);
    assert_eq!(s, ResolveState::TryEnv);
    let s = resolve_step(s, None);
    assert_eq!(s, ResolveState::TryAppDir);
    let s = resolve_step(s, None);
    assert_eq!(s, ResolveState::TryBrowserDir);
    let s = resolve_step(s, None);
    assert_eq!(s, ResolveState::Failed);
}

#[test]
fn later_strategy_can_resolve() {
    let s = resolve_step(ResolveState::TryExplicit, None);
    let s = resolve_step(s, None);
    let s = resolve_step(s, Some(b"from-app-dir".to_vec()));
    assert_eq!(s, ResolveState::Done(b"from-app-dir".to_vec()));
}

#[test]
fn terminal_states_stay_put() {
    let done = resolve_step(ResolveState::Done(b"t".to_vec()), None);
    assert_eq!(done, ResolveState::Done(b"t".to_vec()));
    let failed = resolve_step(ResolveState::Failed, Some(b"late".to_vec()));
    assert_eq!(failed, ResolveState::Failed);
}

#[test]
fn failure_message_names_all_sources() {
    let m = token_not_found_message();
    assert_eq!(
        m,
        "discord token not found, set environment variable DISCORD_TOKEN, pass in as argument, or login to discord on desktop app or on chrome"
    );
}

use calendar_tui::auth::Tokens;
use calendar_tui::calendar::client::{
    classify_status, ApiCall, ApiError, CallEvent, CallPhase, CallStep, PageRequest, Pager,
    PagerState, StatusClass, PAGE_SIZE,
};

fn tokens() -> Tokens {
    Tokens::new("access-1".to_string(), "refresh-1".to_string())
}

fn refreshed(access: &str, refresh: Option<&str>) -> CallEvent {
    CallEvent::Refreshed {
        access_token: access.to_string(),
        refresh_token: refresh.map(|s| s.to_string()),
    }
}

#[test]
fn statuses() {
    assert_eq!(classify_status(401), StatusClass::Unauthorized);
    assert_eq!(classify_status(200), StatusClass::Success);
    assert_eq!(classify_status(204), StatusClass::Success);
    assert_eq!(classify_status(302), StatusClass::Success);
    assert_eq!(classify_status(399), StatusClass::Success);
    assert_eq!(classify_status(400), StatusClass::Failure);
    assert_eq!(classify_status(403), StatusClass::Failure);
    assert_eq!(classify_status(404), StatusClass::Failure);
    assert_eq!(classify_status(500), StatusClass::Failure);
    assert_eq!(classify_status(599), StatusClass::Failure);
    assert_eq!(classify_status(600), StatusClass::Success);
    assert_eq!(classify_status(100), StatusClass::Success);
}

#[test]
fn a_call_that_succeeds_at_once() {
    let mut tokens = tokens();
    let (mut call, step) = ApiCall::start(&tokens);
    assert_eq!(step, CallStep::Send { access_token: "access-1".to_string() });
    assert!(!call.is_finished());
    assert_eq!(call.advance(&mut tokens, CallEvent::Response { status: 200 }), CallStep::Decode);
    assert_eq!(call.phase, CallPhase::Decoding { on_retry: false });
    assert_eq!(call.advance(&mut tokens, CallEvent::Decoded), CallStep::Succeed);
    assert!(call.is_finished());
    assert_eq!(tokens, Tokens::new("access-1".to_string(), "refresh-1".to_string()));
}

#[test]
fn unauthorized_then_success_refreshes_and_saves_once() {
    let mut tokens = tokens();
    let (mut call, _) = ApiCall::start(&tokens);
    let mut steps = Vec::new();
    steps.push(call.advance(&mut tokens, CallEvent::Response { status: 401 }));
    steps.push(call.advance(&mut tokens, refreshed("access-2", None)));
    assert_eq!(tokens, Tokens::new("access-2".to_string(), "refresh-1".to_string()));
    steps.push(call.advance(&mut tokens, CallEvent::Persisted));
    steps.push(call.advance(&mut tokens, CallEvent::Response { status: 200 }));
    steps.push(call.advance(&mut tokens, CallEvent::Decoded));
    assert_eq!(
        steps,
        vec![
            CallStep::Refresh { refresh_token: "refresh-1".to_string() },
            CallStep::Persist {
                tokens: Tokens::new("access-2".to_string(), "refresh-1".to_string())
            },
            CallStep::Send { access_token: "access-2".to_string() },
            CallStep::Decode,
            CallStep::Succeed,
        ]
    );
    assert_eq!(steps.iter().filter(|s| matches!(s, CallStep::Refresh { .. })).count(), 1);
    assert_eq!(steps.iter().filter(|s| matches!(s, CallStep::Persist { .. })).count(), 1);
    assert!(call.is_finished());
}

#[test]
fn a_new_refresh_token_replaces_the_old_one() {
    let mut tokens = tokens();
    let (mut call, _) = ApiCall::start(&tokens);
    call.advance(&mut tokens, CallEvent::Response { status: 401 });
    let step = call.advance(&mut tokens, refreshed("access-2", Some("refresh-2")));
    assert_eq!(
        step,
        CallStep::Persist { tokens: Tokens::new("access-2".to_string(), "refresh-2".to_string()) }
    );
    assert_eq!(tokens, Tokens::new("access-2".to_string(), "refresh-2".to_string()));
}

#[test]
fn unauthorized_twice_fails_after_one_refresh() {
    let mut tokens = tokens();
    let (mut call, _) = ApiCall::start(&tokens);
    let mut steps = Vec::new();
    steps.push(call.advance(&mut tokens, CallEvent::Response { status: 401 }));
    steps.push(call.advance(&mut tokens, refreshed("access-2", None)));
    steps.push(call.advance(&mut tokens, CallEvent::Persisted));
    steps.push(call.advance(&mut tokens, CallEvent::Response { status: 401 }));
    assert_eq!(steps[3], CallStep::Fail(ApiError::StillUnauthorized));
    assert_eq!(steps.iter().filter(|s| matches!(s, CallStep::Refresh { .. })).count(), 1);
    assert!(call.is_finished());
    assert_eq!(
        call.advance(&mut tokens, CallEvent::Response { status: 200 }),
        CallStep::Fail(ApiError::OutOfTurn)
    );
    assert_eq!(tokens.access_token, "access-2");
}

#[test]
fn other_errors_end_the_call_at_once() {
    for (event, error) in [
        (
            CallEvent::Response { status: 500 },
            ApiError::Status { code: 500, on_retry: false },
        ),
        (
            CallEvent::Response { status: 403 },
            ApiError::Status { code: 403, on_retry: false },
        ),
        (CallEvent::TransportError, ApiError::Transport { on_retry: false }),
    ] {
        let mut tokens = tokens();
        let (mut call, _) = ApiCall::start(&tokens);
        assert_eq!(call.advance(&mut tokens, event), CallStep::Fail(error));
        assert!(call.is_finished());
        assert_eq!(tokens, Tokens::new("access-1".to_string(), "refresh-1".to_string()));
    }
}

#[test]
fn errors_on_the_retry() {
    for (event, error) in [
        (
            CallEvent::Response { status: 503 },
            ApiError::Status { code: 503, on_retry: true },
        ),
        (CallEvent::TransportError, ApiError::Transport { on_retry: true }),
    ] {
        let mut tokens = tokens();
        let (mut call, _) = ApiCall::start(&tokens);
        call.advance(&mut tokens, CallEvent::Response { status: 401 });
        call.advance(&mut tokens, refreshed("access-2", None));
        call.advance(&mut tokens, CallEvent::Persisted);
        assert_eq!(call.advance(&mut tokens, event), CallStep::Fail(error));
    }
    let mut tokens = tokens();
    let (mut call, _) = ApiCall::start(&tokens);
    call.advance(&mut tokens, CallEvent::Response { status: 401 });
    call.advance(&mut tokens, refreshed("access-2", None));
    call.advance(&mut tokens, CallEvent::Persisted);
    call.advance(&mut tokens, CallEvent::Response { status: 200 });
    assert_eq!(
        call.advance(&mut tokens, CallEvent::DecodeFailed),
        CallStep::Fail(ApiError::Decode { on_retry: true })
    );
}

#[test]
fn a_failed_refresh_or_save_ends_the_call() {
    let mut tokens = tokens();
    let (mut call, _) = ApiCall::start(&tokens);
    call.advance(&mut tokens, CallEvent::Response { status: 401 });
    assert_eq!(call.advance(&mut tokens, CallEvent::RefreshFailed), CallStep::Fail(ApiError::Refresh));
    assert_eq!(tokens, Tokens::new("access-1".to_string(), "refresh-1".to_string()));

    let (mut call, _) = ApiCall::start(&tokens);
    call.advance(&mut tokens, CallEvent::Response { status: 401 });
    call.advance(&mut tokens, refreshed("access-2", None));
    assert_eq!(call.advance(&mut tokens, CallEvent::PersistFailed), CallStep::Fail(ApiError::Persist));
    assert_eq!(tokens.access_token, "access-2");
    assert!(call.is_finished());
}

#[test]
fn a_body_that_cannot_be_decoded_fails_the_call() {
    let mut tokens = tokens();
    let (mut call, _) = ApiCall::start(&tokens);
    call.advance(&mut tokens, CallEvent::Response { status: 200 });
    assert_eq!(
        call.advance(&mut tokens, CallEvent::DecodeFailed),
        CallStep::Fail(ApiError::Decode { on_retry: false })
    );
    assert!(call.is_finished());
}

#[test]
fn events_out_of_turn_end_the_call() {
    for event in [
        CallEvent::Persisted,
        CallEvent::Decoded,
        CallEvent::RefreshFailed,
        refreshed("x", None),
        CallEvent::PersistFailed,
        CallEvent::DecodeFailed,
    ] {
        let mut tokens = tokens();
        let (mut call, _) = ApiCall::start(&tokens);
        assert_eq!(call.advance(&mut tokens, event), CallStep::Fail(ApiError::OutOfTurn));
        assert!(call.is_finished());
        assert_eq!(tokens, Tokens::new("access-1".to_string(), "refresh-1".to_string()));
    }
}

#[test]
fn texts_of_errors() {
    assert_eq!(ApiError::Transport { on_retry: false }.message(), "API call failed");
    assert_eq!(
        ApiError::Transport { on_retry: true }.message(),
        "API call failed on retry after token refresh"
    );
    assert_eq!(ApiError::Refresh.message(), "Failed to refresh access token after 401");
    assert_eq!(ApiError::Persist.message(), "Failed to save refreshed tokens");
    assert_eq!(ApiError::StillUnauthorized.message(), "Still unauthorized after token refresh");
    assert_eq!(
        ApiError::Status { code: 500, on_retry: false }.message(),
        "API returned error status"
    );
    assert_eq!(
        ApiError::Status { code: 500, on_retry: true }.message(),
        "API returned error status on retry"
    );
    assert_eq!(ApiError::Decode { on_retry: false }.message(), "Failed to parse response JSON");
    assert_eq!(
        ApiError::Decode { on_retry: true }.message(),
        "Failed to parse response JSON on retry"
    );
    assert_eq!(ApiError::OutOfTurn.message(), "Unexpected event for the call");
}

#[test]
fn pages_are_gathered_in_order() {
    let mut pager: Pager<u32> = Pager::new();
    assert_eq!(
        pager.next_request(),
        Some(PageRequest { page_token: None, max_results: PAGE_SIZE })
    );
    pager.accept(vec![1, 2], Some("t1".to_string()));
    assert_eq!(
        pager.next_request(),
        Some(PageRequest { page_token: Some("t1".to_string()), max_results: 250 })
    );
    assert!(!pager.is_finished());
    pager.accept(vec![], Some("t2".to_string()));
    assert_eq!(pager.state, PagerState::Next { page_token: "t2".to_string() });
    pager.accept(vec![3], Some("t3".to_string()));
    pager.accept(vec![4, 5, 6], None);
    assert!(pager.is_finished());
    assert_eq!(pager.next_request(), None);
    pager.accept(vec![7], Some("late".to_string()));
    assert!(pager.is_finished());
    assert_eq!(pager.into_items(), vec![1, 2, 3, 4, 5, 6]);
}

#[test]
fn a_single_page_without_cursor_is_the_whole_listing() {
    let mut pager: Pager<&str> = Pager::new();
    pager.accept(vec!["cal1", "cal2"], None);
    assert!(pager.is_finished());
    assert_eq!(pager.into_items(), vec!["cal1", "cal2"]);
    let empty: Pager<&str> = Pager::new();
    assert!(!empty.is_finished());
    assert!(empty.into_items().is_empty());
}

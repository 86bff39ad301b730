//! The Codex provider.

use moh::providers::codex::auth::{
    accept_rotation, auth_path, credential_lock_step, refresh_error_code, refresh_rejection,
    resolve_codex_home, AuthDocument, AuthError, AuthFile, CredentialRefresh, LockAttempt,
    LockStep, PendingRefreshes, RefreshErrorEnvelope, RefreshErrorValue, RefreshEvent,
    RefreshFailure, RefreshReply, RefreshResponse, TokenDocument,
};
use moh::providers::codex::model::{
    catalog_result, catalog_url, classify_completion_error, completion_result,
    request_parameters, CatalogEvent, CatalogFetch, CatalogReply, CodexModelError,
    CodexTransportError, CompletionFailure, ModelCallBudget, RawModelInfo,
    MODEL_CATALOG_CLIENT_VERSION,
};
use moh::providers::codex::sse::{
    completes_response, observe_completed_sse, CompletionEvidence,
};
use moh::providers::codex::CodexConfig;
use moh::session::Timestamp;

fn completed_event() -> String {
    concat_lines(&[
        "{\"type\":\"response.completed\",\"response\":{\"id\":\"resp_test\",\"object\":\"response\",",
        "\"created_at\":0,\"status\":\"completed\",\"error\":null,\"incomplete_details\":null,",
        "\"instructions\":null,\"max_output_tokens\":null,\"model\":\"gpt-5.6-luna\",",
        "\"usage\":{\"input_tokens\":1,\"output_tokens\":1,\"total_tokens\":2},",
        "\"output\":[],\"tools\":[]},\"sequence_number\":1}",
    ])
}

fn concat_lines(parts: &[&str]) -> String {
    parts.iter().copied().collect()
}

#[test]
fn completion_observer_accepts_all_sse_line_endings_across_chunk_boundaries() {
    let event = completed_event();
    for (name, encoded) in [
        ("lf", format!("data: {event}\n\n")),
        ("crlf", format!("data: {event}\r\n\r\n")),
        ("cr", format!("data: {event}\r\r")),
        ("mixed-crlf-cr", format!("data: {event}\r\n\r")),
        ("mixed-lf-crlf", format!("data: {event}\n\r\n")),
    ] {
        let mut buffer = Vec::new();
        let mut observed = false;
        for byte in encoded.as_bytes().chunks(1) {
            observed |= observe_completed_sse(&mut buffer, byte, false);
        }
        observed |= observe_completed_sse(&mut buffer, &[], true);
        assert!(observed, "{name} line-ending variant was not observed");
        assert!(buffer.is_empty(), "{name} left {buffer:?}");
    }

    let mut buffer = Vec::new();
    let multiline = format!("event: message\rdata: {event}\ndata: \r\n\r");
    let observed = observe_completed_sse(&mut buffer, multiline.as_bytes(), true);
    assert!(observed);
    assert!(buffer.is_empty());
}

#[test]
fn an_incomplete_event_is_kept_until_its_end_comes() {
    let event = completed_event();
    let mut buffer = Vec::new();
    assert!(!observe_completed_sse(&mut buffer, format!("data: {event}").as_bytes(), false));
    assert!(!buffer.is_empty());
    assert!(observe_completed_sse(&mut buffer, b"\n\n", false));
    assert!(buffer.is_empty());
}

#[test]
fn other_events_complete_nothing() {
    let mut buffer = Vec::new();
    assert!(!observe_completed_sse(&mut buffer, b"data: {\"type\":\"response.created\"}\n\n", true));
    assert!(!observe_completed_sse(&mut buffer, b"data: [DONE]\n\n", true));
    assert!(!completes_response(None));
}

#[test]
fn evidence_is_kept_until_it_is_reset() {
    let mut evidence = CompletionEvidence::new();
    assert!(!evidence.completed());
    evidence.observe_completed();
    assert!(evidence.completed());
    evidence.reset();
    assert!(!evidence.completed());
}

#[test]
fn response_parse_text_that_resembles_stream_eof_stays_incompatible() {
    let classified =
        classify_completion_error(&CompletionFailure::Response("Stream ended".to_owned()));

    assert!(matches!(classified, CodexTransportError::IncompatibleResponse));
}

#[test]
fn failed_completions_are_classified() {
    let provider = |message: &str| {
        classify_completion_error(&CompletionFailure::Provider(message.to_owned()))
    };
    assert_eq!(provider("Stream ended"), CodexTransportError::Transport);
    assert_eq!(provider("Http client error: reset"), CodexTransportError::Transport);
    assert_eq!(provider("Http error: timeout"), CodexTransportError::Transport);
    assert_eq!(
        provider("Request in error state, cannot access headers"),
        CodexTransportError::Transport
    );
    assert_eq!(provider("stream ended"), CodexTransportError::IncompatibleResponse);
    assert_eq!(
        classify_completion_error(&CompletionFailure::Http { status: Some(429) }),
        CodexTransportError::HttpRejected(429)
    );
    assert_eq!(
        classify_completion_error(&CompletionFailure::Http { status: None }),
        CodexTransportError::Transport
    );
    assert_eq!(
        classify_completion_error(&CompletionFailure::Url),
        CodexTransportError::Transport
    );
    assert_eq!(
        classify_completion_error(&CompletionFailure::ProviderResponse { status: Some(500) }),
        CodexTransportError::HttpRejected(500)
    );
    assert_eq!(
        classify_completion_error(&CompletionFailure::ProviderResponse { status: None }),
        CodexTransportError::IncompatibleResponse
    );
    assert_eq!(
        classify_completion_error(&CompletionFailure::Json),
        CodexTransportError::IncompatibleResponse
    );
    assert_eq!(
        classify_completion_error(&CompletionFailure::Request),
        CodexTransportError::IncompatibleResponse
    );
}

#[test]
fn the_budget_runs_out() {
    let mut budget = ModelCallBudget::new(2);
    assert!(budget.consume().is_ok());
    assert_eq!(budget.remaining(), 1);
    assert!(budget.consume().is_ok());
    assert_eq!(budget.consume(), Err("Codex model call budget was exhausted"));
    assert_eq!(budget.remaining(), 0);
}

#[test]
fn a_stream_without_completion_is_an_error() {
    assert_eq!(completion_result(true), Ok(()));
    assert_eq!(
        completion_result(false),
        Err("Codex SSE stream did not contain a completed response")
    );
}

fn raw(slug: &str, visibility: &str) -> RawModelInfo {
    RawModelInfo {
        slug: slug.to_owned(),
        display_name: format!("Model {slug}"),
        description: "described".to_owned(),
        visibility: visibility.to_owned(),
        supported_reasoning_levels: vec!["low".to_owned(), "high".to_owned()],
        default_reasoning_level: Some("low".to_owned()),
    }
}

#[test]
fn the_catalog_lists_visible_models_in_order() {
    let models = catalog_result(CatalogReply::Answered {
        status: 200,
        models: Ok(vec![raw("a", "list"), raw("b", "hide"), raw("c", "list")]),
    })
    .unwrap();
    let ids: Vec<&str> = models.iter().map(|model| model.id.as_str()).collect();
    assert_eq!(ids, ["a", "c"]);
    assert_eq!(models[0].display_name, "Model a");
    assert_eq!(models[0].description, "described");
    assert_eq!(models[0].reasoning_efforts, ["low", "high"]);
    assert_eq!(models[0].default_reasoning_effort.as_deref(), Some("low"));
}

#[test]
fn the_catalog_is_requested_again_once_credentials_were_refreshed() {
    let answered = |reply| CatalogEvent::Answered(catalog_result(reply));
    let unauthorized = || CatalogReply::Answered { status: 401, models: Err(()) };
    let fetch = CatalogFetch::new().advance(answered(unauthorized()));
    assert!(matches!(fetch, CatalogFetch::Refreshing));
    let fetch = fetch.advance(CatalogEvent::Refreshed(Ok(())));
    assert!(matches!(fetch, CatalogFetch::Requesting { refreshed: true }));
    assert!(matches!(
        fetch.advance(answered(unauthorized())),
        CatalogFetch::Finished(Err(CodexModelError::CatalogRejected { status: 401 }))
    ));

    let refused = CatalogFetch::new()
        .advance(answered(unauthorized()))
        .advance(CatalogEvent::Refreshed(Err(CodexModelError::Client)));
    assert!(matches!(refused, CatalogFetch::Finished(Err(CodexModelError::Client))));

    let failed = CatalogFetch::new().advance(answered(CatalogReply::Failed));
    assert!(matches!(failed, CatalogFetch::Finished(Err(CodexModelError::CatalogTransport))));
    let listed = CatalogFetch::new()
        .advance(answered(CatalogReply::Answered { status: 200, models: Ok(Vec::new()) }));
    assert!(matches!(listed, CatalogFetch::Finished(Ok(models)) if models.is_empty()));
}

#[test]
fn catalog_failures_are_told_apart() {
    let transport = catalog_result(CatalogReply::Failed);
    assert!(matches!(transport, Err(CodexModelError::CatalogTransport)));
    let rejected = catalog_result(CatalogReply::Answered { status: 401, models: Err(()) });
    assert_eq!(
        rejected.unwrap_err().message(),
        "Codex model catalog request was rejected with HTTP status 401"
    );
    let malformed = catalog_result(CatalogReply::Answered { status: 200, models: Err(()) });
    assert_eq!(malformed.unwrap_err().message(), "Codex returned an incompatible model catalog");
    assert_eq!(
        CodexModelError::Client.message(),
        "could not construct the Codex model client"
    );
    assert_eq!(
        CodexModelError::CatalogTransport.message(),
        "could not fetch the Codex model catalog"
    );
    assert_eq!(
        CodexModelError::Auth(AuthError::CredentialStoreBusy).message(),
        "Codex credential store is busy; retry the request"
    );
}

#[test]
fn catalog_addresses_have_one_separator() {
    let config = CodexConfig::default();
    assert_eq!(config.refresh_url, "https://auth.openai.com/oauth/token");
    assert_eq!(
        catalog_url(&config.api_base, MODEL_CATALOG_CLIENT_VERSION),
        "https://chatgpt.com/backend-api/codex/models?client_version=99.99.99"
    );
    assert_eq!(catalog_url("http://host//", "1"), "http://host/models?client_version=1");
}

#[test]
fn responses_are_not_stored() {
    let pair = |name: &str, value: &str| (name.to_owned(), value.to_owned());
    assert_eq!(request_parameters(None), [pair("store", "false")]);
    assert_eq!(
        request_parameters(Some(vec![pair("store", "true"), pair("top", "1")])),
        [pair("store", "false"), pair("top", "1")]
    );
    assert_eq!(
        request_parameters(Some(vec![pair("top", "1")])),
        [pair("top", "1"), pair("store", "false")]
    );
}

fn document(access: &str, refresh: &str, account: &str) -> AuthDocument {
    AuthDocument {
        auth_mode: Some("chatgpt".to_owned()),
        openai_api_key: None,
        tokens: Some(TokenDocument {
            id_token: Some("identity".to_owned()),
            access_token: Some(access.to_owned()),
            refresh_token: Some(refresh.to_owned()),
            account_id: Some(account.to_owned()),
            extra: "{\"scope\":1}".to_owned(),
        }),
        last_refresh: Some("\"2020-01-01T00:00:00Z\"".to_owned()),
        extra: "{\"note\":true}".to_owned(),
    }
}

fn path() -> Vec<u8> {
    b"/home/user/.codex/auth.json".to_vec()
}

#[test]
fn credentials_are_checked_in_order() {
    let credentials = document("access", "refresh", "account-123").credentials().ok().unwrap();
    assert_eq!(credentials.account_id(), "account-123");
    assert_eq!(credentials.access_token(), "access");
    assert_eq!(credentials.refresh_token(), "refresh");

    let missing = |document: AuthDocument| match document.credentials() {
        Err(AuthError::MissingCredentialField { field }) => field,
        _ => panic!("expected a missing field"),
    };
    assert_eq!(missing(document(" ", "", "")), "access_token");
    assert_eq!(missing(document("access", "\t", "")), "refresh_token");
    assert_eq!(missing(document("access", "refresh", "")), "account_id");
    let mut without_tokens = document("access", "refresh", "account-123");
    without_tokens.tokens = None;
    assert_eq!(missing(without_tokens), "tokens");

    let mut other_mode = document("access", "refresh", "account-123");
    other_mode.auth_mode = Some("api\"key".to_owned());
    assert_eq!(
        other_mode.credentials().err().unwrap().message(),
        "unsupported Codex auth mode Some(\"api\\\"key\"); sign in with ChatGPT using file-backed storage"
    );
    other_mode.auth_mode = None;
    assert_eq!(
        other_mode.credentials().err().unwrap().message(),
        "unsupported Codex auth mode None; sign in with ChatGPT using file-backed storage"
    );
}

#[test]
fn credential_files_are_read_or_refused() {
    assert!(AuthFile::load(path(), Ok(Some(Ok(document("a", "r", "i"))))).is_ok());
    let message = |read| AuthFile::load(path(), read).err().unwrap().message();
    assert_eq!(
        message(Ok(None)),
        "file-backed Codex credentials are required at /home/user/.codex/auth.json; set cli_auth_credentials_store = \"file\" and run `codex login`"
    );
    assert_eq!(
        message(Err("denied".to_owned())),
        "could not read Codex credentials at /home/user/.codex/auth.json: denied"
    );
    assert_eq!(
        message(Ok(Some(Err(())))),
        "Codex credentials at /home/user/.codex/auth.json are malformed"
    );
    assert_eq!(
        message(Ok(Some(Ok(document("a", "r", ""))))),
        "Codex ChatGPT credentials are missing account_id"
    );
}

#[test]
fn the_codex_home_is_explicit_or_below_the_home_directory() {
    let given = |text: &str| Some(text.as_bytes().to_vec());
    assert_eq!(resolve_codex_home(given("/codex"), given("/home")).unwrap(), b"/codex");
    assert_eq!(resolve_codex_home(given(""), given("/home")).unwrap(), b"/home/.codex");
    assert!(matches!(
        resolve_codex_home(None, given("")),
        Err(AuthError::HomeDirectoryUnavailable)
    ));
    assert_eq!(
        auth_path(None, given(""), given("/profile")).unwrap(),
        b"/profile/.codex/auth.json"
    );
    assert_eq!(auth_path(given("/codex"), None, None).unwrap(), b"/codex/auth.json");
    assert_eq!(
        AuthError::HomeDirectoryUnavailable.message(),
        "could not resolve the home directory for Codex credentials"
    );
}

fn envelope(error: Option<RefreshErrorValue>, code: Option<&str>) -> RefreshErrorEnvelope {
    RefreshErrorEnvelope { error, code: code.map(str::to_owned) }
}

#[test]
fn refused_refreshes_are_classified() {
    let code = |text: &str| Some(RefreshErrorValue::Code(text.to_owned()));
    assert_eq!(
        refresh_rejection(401, Some(envelope(code("refresh_token_expired"), None))).message(),
        "Codex token refresh failed: refresh token expired; run `codex login`"
    );
    assert_eq!(
        refresh_rejection(500, Some(envelope(None, Some("refresh_token_reused")))).message(),
        "Codex token refresh failed: refresh token was already used; run `codex login`"
    );
    let nested = RefreshErrorValue::Object { code: Some("refresh_token_invalidated".to_owned()) };
    assert_eq!(
        refresh_rejection(400, Some(envelope(Some(nested), None))).message(),
        "Codex token refresh failed: refresh token was revoked; run `codex login`"
    );
    assert!(matches!(
        refresh_rejection(403, None),
        AuthError::RefreshFailed(RefreshFailure::Rejected)
    ));
    assert!(matches!(refresh_rejection(503, None), AuthError::RefreshTransport));
    let empty = RefreshErrorValue::Object { code: None };
    assert_eq!(refresh_error_code(&envelope(Some(empty), Some("outer"))), None);
}

fn response(access: Option<&str>, refresh: Option<&str>) -> RefreshResponse {
    RefreshResponse {
        access_token: access.map(str::to_owned),
        refresh_token: refresh.map(str::to_owned),
        id_token: None,
    }
}

#[test]
fn new_tokens_must_not_be_blank() {
    let missing = |response| accept_rotation(response).err().unwrap().message();
    assert_eq!(
        missing(response(None, None)),
        "Codex ChatGPT credentials are missing refreshed access_token"
    );
    assert_eq!(
        missing(response(Some("new"), Some("  "))),
        "Codex ChatGPT credentials are missing refreshed refresh_token"
    );
    assert!(accept_rotation(response(Some("new"), None)).is_ok());
}

fn read(document: AuthDocument) -> RefreshEvent {
    RefreshEvent::Read { path: path(), read: Ok(Some(Ok(document))) }
}

fn reread(document: AuthDocument) -> RefreshEvent {
    RefreshEvent::Reread {
        path: path(),
        read: Ok(Some(Ok(document))),
        now: Timestamp { seconds: 1_700_000_000, nanoseconds: 120_000_000 },
    }
}

#[test]
fn refresh_locks_reads_requests_rereads_and_persists() {
    let refresh = CredentialRefresh::new();
    assert!(matches!(refresh, CredentialRefresh::Locking));
    let refresh = refresh.advance(RefreshEvent::Locked(Ok(())));
    assert!(matches!(refresh, CredentialRefresh::Reading));
    let refresh = refresh.advance(read(document("access", "refresh", "account-123")));
    let request = refresh.request().unwrap();
    assert_eq!(request.client_id, "app_EMoamEEZ73f0CkXaXp7hrann");
    assert_eq!(request.grant_type, "refresh_token");
    assert_eq!(request.refresh_token, "refresh");
    let refresh = refresh.advance(RefreshEvent::Replied(RefreshReply::Accepted(response(
        Some("rotated-access"),
        Some("rotated-refresh"),
    ))));
    assert!(matches!(refresh, CredentialRefresh::Rereading { .. }));
    let refresh = refresh.advance(reread(document("access", "refresh", "account-123")));
    assert!(matches!(refresh, CredentialRefresh::Persisting { .. }));
    let rotated = match refresh.advance(RefreshEvent::Persisted(Ok(()))) {
        CredentialRefresh::Finished(Ok(rotated)) => rotated,
        _ => panic!("the refresh should have finished"),
    };
    assert_eq!(rotated.extra, "{\"note\":true}");
    assert_eq!(rotated.last_refresh.as_deref(), Some("\"2023-11-14T22:13:20.120Z\""));
    let mut file = AuthFile { path: path(), document: document("access", "refresh", "account-123") };
    let credentials = file.refresh(Some(Ok(rotated))).ok().unwrap();
    assert_eq!(credentials.access_token(), "rotated-access");
    assert_eq!(credentials.refresh_token(), "rotated-refresh");
    assert_eq!(credentials.account_id(), "account-123");
    let tokens = file.document.tokens.as_ref().unwrap();
    assert_eq!(tokens.id_token.as_deref(), Some("identity"));
    assert_eq!(tokens.extra, "{\"scope\":1}");
}

#[test]
fn a_busy_store_sends_no_request() {
    let refresh = CredentialRefresh::new()
        .advance(RefreshEvent::Locked(Err(AuthError::CredentialStoreBusy)));
    assert!(refresh.request().is_none());
    assert!(matches!(
        refresh,
        CredentialRefresh::Finished(Err(AuthError::CredentialStoreBusy))
    ));
}

#[test]
fn concurrent_rotations_are_kept() {
    let refresh = CredentialRefresh::new()
        .advance(RefreshEvent::Locked(Ok(())))
        .advance(read(document("access", "refresh", "account-123")))
        .advance(RefreshEvent::Replied(RefreshReply::Accepted(response(Some("new"), None))))
        .advance(reread(document("access", "newer-refresh", "account-123")));
    match refresh {
        CredentialRefresh::Finished(Err(error)) => assert_eq!(
            error.message(),
            "Codex credentials changed while refresh was in progress; retry the request"
        ),
        _ => panic!("the refresh should have failed"),
    }
}

#[test]
fn lost_and_failed_refreshes_change_nothing() {
    let mut file = AuthFile { path: path(), document: document("access", "refresh", "account-123") };
    assert_eq!(
        file.refresh(None).err().unwrap().message(),
        "Codex token refresh transport failed"
    );
    let failed = AuthError::Persist { path: path(), source: "full".to_owned() };
    assert_eq!(
        file.refresh(Some(Err(failed))).err().unwrap().message(),
        "could not persist refreshed Codex credentials at /home/user/.codex/auth.json: full"
    );
    assert_eq!(file.credentials().ok().unwrap().access_token(), "access");
}

#[test]
fn lock_attempts_end_at_the_deadline() {
    let step = |attempt, elapsed| credential_lock_step(path(), attempt, elapsed, 30, 2);
    assert!(matches!(step(LockAttempt::Acquired, 31), LockStep::Locked));
    assert!(matches!(step(LockAttempt::Held, 0), LockStep::Wait(2)));
    assert!(matches!(step(LockAttempt::Held, 29), LockStep::Wait(1)));
    assert!(matches!(
        step(LockAttempt::Held, 30),
        LockStep::GiveUp(AuthError::CredentialStoreBusy)
    ));
    assert!(matches!(
        step(LockAttempt::Failed("denied".to_owned()), 0),
        LockStep::GiveUp(AuthError::Persist { .. })
    ));
}

#[test]
fn pending_refreshes_are_pruned_completed_and_drained() {
    let mut pending = PendingRefreshes::new();
    assert_eq!(pending.register("first", &[]), 0);
    assert_eq!(pending.register("second", &[false]), 1);
    assert_eq!(pending.register("third", &[true, false]), 2);
    assert_eq!(pending.len(), 2);
    assert_eq!(pending.task(0), Some(&"second"));
    assert_eq!(pending.complete(0), None);
    assert_eq!(pending.complete(1), Some("second"));
    assert_eq!(pending.drain(), [(2, "third")]);
    assert_eq!(pending.len(), 0);
}

use aes::cipher::block_padding::Pkcs7;
use aes::cipher::{BlockEncryptMut, KeyIvInit};
use slack_cli::client::{
    api_url, backoff_seconds, next_cursor, HttpOutcome, PageStep, PaginationOpts, Paginator, RetryAction, RetryState,
    MAX_BACKOFF_SECS,
};
use slack_cli::config::{mask_token, ConfigOptions, PendingWrite, ProfileConfigManager, CONFIG_DIR_NAME};
use slack_cli::crypto::{
    derive_key, is_current_format, is_encrypted, is_legacy_encrypted, CryptoOptions, TokenCryptoService, ERR_DECRYPT,
    LEGACY_IV_LENGTH, LEGACY_KEY_PASSWORD, LEGACY_KEY_SALT,
};
use slack_cli::hexcodec::encode_hex;
use slack_cli::error::{ErrorResponse, SlackCliError, CODE_API, CODE_CONFIGURATION, CODE_FILE, CODE_VALIDATION};
use slack_cli::json::{Json, JsonNumber};

fn s(v: &str) -> Json {
    Json::Str(v.to_string())
}

fn obj(fields: Vec<(&str, Json)>) -> Json {
    Json::Object(fields.into_iter().map(|(k, v)| (k.to_string(), v)).collect())
}

fn service_with_key(secret: &str) -> TokenCryptoService {
    let mut options = CryptoOptions::default_options();
    options.master_key = Some(secret.to_string());
    TokenCryptoService::with_options(options)
}

fn slack_token() -> String {
    format!("xo{}-1234567890-abcdef", "xb")
}

fn profile_token(suffix: &str) -> String {
    format!("xo{}-0000000000-{suffix}", "xb")
}

fn manager() -> ProfileConfigManager {
    let mut crypto = CryptoOptions::default_options();
    crypto.master_key = Some("unit-test-master-key".to_string());
    match ProfileConfigManager::with_options(ConfigOptions {
        config_dir: Some(format!("/tmp/slack-cli-tests/{CONFIG_DIR_NAME}")),
        crypto: Some(crypto),
    }) {
        Ok(m) => m,
        Err(e) => panic!("{}", e.message()),
    }
}

#[test]
fn plaintext_slack_token_is_not_detected_as_encrypted() {
    assert!(!is_encrypted(&slack_token()));
    assert!(!is_encrypted(""));
}

#[test]
fn format_detection_matches_typescript_rules() {
    let iv = "0".repeat(24);
    let tag = "0".repeat(32);
    assert!(is_current_format(&format!("v2:{iv}:abcd:{tag}")));
    assert!(is_current_format(&format!("v2:{iv}::{tag}")));
    assert!(!is_current_format(&format!("v2:{iv}:abc:{tag}")));
    assert!(!is_current_format(&format!("v2:00:abcd:{tag}")));
    assert!(is_legacy_encrypted(&format!("{}:abcd", "0".repeat(32))));
    assert!(!is_legacy_encrypted(&format!("{}:", "0".repeat(32))));
}

#[test]
fn encrypt_decrypt_round_trip() {
    let svc = service_with_key("test-master-key");
    let token = slack_token();
    let encrypted = svc.encrypt(&token).unwrap();
    assert!(is_current_format(&encrypted), "format was: {encrypted}");
    let parts: Vec<&str> = encrypted.split(':').collect();
    assert_eq!(parts[0], "v2");
    assert_eq!(parts[1].len(), 24);
    assert_eq!(parts[3].len(), 32);
    assert_eq!(svc.decrypt(&encrypted).unwrap(), token);
}

#[test]
fn ciphertext_differs_per_call_because_iv_is_random() {
    let svc = service_with_key("test-master-key");
    assert_ne!(svc.encrypt("same").unwrap(), svc.encrypt("same").unwrap());
}

#[test]
fn wrong_master_key_fails_to_decrypt() {
    let encrypted = service_with_key("key-a").encrypt("secret").unwrap();
    let err = service_with_key("key-b").decrypt(&encrypted).unwrap_err();
    assert_eq!(err.message(), ERR_DECRYPT);
}

#[test]
fn empty_and_malformed_input_is_a_validation_error() {
    let svc = service_with_key("k");
    assert!(matches!(svc.decrypt("").unwrap_err(), SlackCliError::Validation(_)));
    assert!(matches!(svc.decrypt("not-encrypted").unwrap_err(), SlackCliError::Validation(_)));
}

#[test]
fn mask_token_threshold_is_nine_characters() {
    assert_eq!(mask_token("123456789"), "****");
    assert_eq!(mask_token("1234567890"), "1234-****-****-7890");
    assert_eq!(mask_token(""), "****");
}

#[test]
fn set_then_get_round_trips_the_token() {
    let mut mgr = manager();
    let token = profile_token("alpha");
    assert_eq!(mgr.set_token(&token, None).unwrap(), "default");
    assert_eq!(mgr.get_config(None).unwrap().unwrap().token, token);
    assert!(matches!(mgr.pending(), PendingWrite::Save));
}

#[test]
fn profile_resolution_prefers_argument_then_default_then_literal_default() {
    let mut mgr = manager();
    mgr.set_token(&profile_token("d"), None).unwrap();
    mgr.set_token(&profile_token("w"), Some("work")).unwrap();
    assert_eq!(mgr.current_profile(), "default");
    mgr.use_profile("work").unwrap();
    assert_eq!(mgr.current_profile(), "work");
    assert_eq!(mgr.get_config(None).unwrap().unwrap().token, profile_token("w"));
    assert_eq!(mgr.get_config(Some("default")).unwrap().unwrap().token, profile_token("d"));
}

#[test]
fn use_profile_rejects_unknown_name() {
    let mut mgr = manager();
    let err = mgr.use_profile("nope").unwrap_err();
    assert_eq!(err.message(), "Profile \"nope\" does not exist");
}

#[test]
fn clear_promotes_the_first_remaining_profile_to_default() {
    let mut mgr = manager();
    mgr.set_token(&profile_token("a"), Some("alpha")).unwrap();
    mgr.set_token(&profile_token("b"), Some("beta")).unwrap();
    mgr.use_profile("beta").unwrap();
    mgr.clear_config(Some("beta"));
    assert_eq!(mgr.current_profile(), "alpha");
}

#[test]
fn clearing_the_last_profile_removes_the_config_file() {
    let mut mgr = manager();
    mgr.set_token(&profile_token("only"), None).unwrap();
    mgr.clear_config(None);
    assert!(matches!(mgr.pending(), PendingWrite::Remove));
    assert_eq!(mgr.current_profile(), "default");
}

#[test]
fn clearing_an_unknown_profile_is_not_an_error() {
    let mut mgr = manager();
    mgr.set_token(&profile_token("keep"), None).unwrap();
    assert_eq!(mgr.clear_config(Some("ghost")), "ghost");
    assert!(mgr.get_config(Some("default")).unwrap().is_some());
}

#[test]
fn missing_config_resolves_to_not_authenticated() {
    let mut mgr = manager();
    assert_eq!(mgr.resolve_token(Some("explicit"), None, None).unwrap(), "explicit");
    assert!(mgr.get_config(None).unwrap().is_none());
    let message = match mgr.get_config_or_error(None) {
        Ok(_) => panic!("no profile is configured"),
        Err(e) => e.message(),
    };
    assert!(message.starts_with("No configuration found for profile \"default\""));
    assert!(matches!(mgr.resolve_token(None, Some("  "), None), Err(SlackCliError::NotAuthenticated)));
}

#[test]
fn list_profiles_keeps_insertion_order_and_does_not_decrypt() {
    let mut mgr = manager();
    mgr.set_token(&profile_token("1"), Some("alpha")).unwrap();
    mgr.set_token(&profile_token("2"), Some("beta")).unwrap();
    mgr.use_profile("beta").unwrap();
    let profiles = mgr.list_profiles();
    assert_eq!(profiles.iter().map(|p| p.name.as_str()).collect::<Vec<_>>(), vec!["alpha", "beta"]);
    assert!(profiles[1].is_default);
    assert!(profiles[0].token.starts_with("v2:"));
}

#[test]
fn every_failure_exits_with_one() {
    assert_eq!(SlackCliError::NotAuthenticated.exit_code(), 1);
    assert_eq!(SlackCliError::RateLimited { retry_after: 5 }.exit_code(), 1);
    assert_eq!(SlackCliError::Validation("x".into()).exit_code(), 1);
    assert_eq!(SlackCliError::NotFound("x".into()).exit_code(), 1);
    assert_eq!(SlackCliError::Api { status: 200, code: "channel_not_found".into(), needed: vec![] }.exit_code(), 1);
}

#[test]
fn not_found_prints_its_message_without_an_api_error_prefix() {
    let err = SlackCliError::NotFound("Channel 'x' not found.".into());
    assert_eq!(err.message(), "Channel 'x' not found.");
    assert_eq!(err.code(), Some(CODE_API));
}

#[test]
fn codes_match_typescript_error_classes() {
    assert_eq!(SlackCliError::Configuration("x".into()).code(), Some(CODE_CONFIGURATION));
    assert_eq!(SlackCliError::Validation("x".into()).code(), Some(CODE_VALIDATION));
    assert_eq!(SlackCliError::File("x".into()).code(), Some(CODE_FILE));
    assert_eq!(SlackCliError::Api { status: 200, code: "channel_not_found".into(), needed: vec![] }.code(), Some(CODE_API));
}

#[test]
fn missing_scope_message_lists_needed_scopes() {
    let body = ErrorResponse {
        error: Some("missing_scope".into()),
        needed: Some("channels:read, groups:read,".into()),
        provided: None,
    };
    assert_eq!(body.needed_scopes(), vec!["channels:read".to_string(), "groups:read".to_string()]);
    assert_eq!(body.into_error(200).message(), "API Error: missing_scope (needed: channels:read, groups:read)");
}

#[test]
fn error_without_needed_scopes_prints_code_only() {
    let body = ErrorResponse { error: Some("channel_not_found".into()), needed: None, provided: None };
    assert_eq!(body.into_error(200).message(), "API Error: channel_not_found");
}

#[test]
fn next_cursor_treats_empty_and_missing_alike() {
    assert_eq!(next_cursor(&obj(vec![("response_metadata", obj(vec![("next_cursor", s("abc"))]))])), Some("abc".to_string()));
    assert_eq!(next_cursor(&obj(vec![("response_metadata", obj(vec![("next_cursor", s(""))]))])), None);
    assert_eq!(next_cursor(&obj(vec![("response_metadata", obj(vec![]))])), None);
    assert_eq!(next_cursor(&obj(vec![("ok", Json::Bool(true))])), None);
}

#[test]
fn backoff_grows_and_stays_within_bounds() {
    for attempt in 0..6 {
        let wait = backoff_seconds(2, attempt);
        assert!((1..=MAX_BACKOFF_SECS + 12).contains(&wait), "wait was {wait}");
    }
    assert!(backoff_seconds(30, 10) <= MAX_BACKOFF_SECS + 12);
}

fn page(items: Vec<Json>, cursor: &str) -> Json {
    obj(vec![
        ("channels", Json::Array(items)),
        ("response_metadata", obj(vec![("next_cursor", s(cursor))])),
    ])
}

#[test]
fn paging_follows_cursors_and_stops_at_the_limit() {
    let mut opts = PaginationOpts::all();
    opts.limit = Some(3);
    let mut p = Paginator::start(opts);
    let first = p.next_request().unwrap();
    assert!(first.cursor.is_none());
    assert!(matches!(p.take_page(page(vec![s("a"), s("b")], "c1"), "channels"), Ok(PageStep::Continue)));
    assert_eq!(p.next_request().unwrap().cursor.as_deref(), Some("c1"));
    assert!(matches!(p.take_page(page(vec![s("c"), s("d")], "c2"), "channels"), Ok(PageStep::Done)));
    assert_eq!(p.finish().len(), 3);
}

#[test]
fn a_repeated_cursor_is_an_error() {
    let mut p = Paginator::start(PaginationOpts::all());
    p.next_request().unwrap();
    assert!(matches!(p.take_page(page(vec![s("a")], "same"), "channels"), Ok(PageStep::Continue)));
    p.next_request().unwrap();
    let err = p.take_page(page(vec![s("b")], "same"), "channels").unwrap_err();
    assert_eq!(err.message(), "Pagination error: Server returned the same cursor twice");
}

#[test]
fn nested_result_paths_are_followed() {
    let mut p = Paginator::start(PaginationOpts::defaults());
    p.next_request().unwrap();
    let response = obj(vec![("messages", obj(vec![("matches", Json::Array(vec![s("m1"), s("m2")]))]))]);
    assert!(matches!(p.take_page(response, "messages.matches"), Ok(PageStep::Done)));
    assert_eq!(p.finish().len(), 2);
}

#[test]
fn rate_limits_are_retried_until_the_retries_run_out() {
    let mut state = RetryState::new(1);
    assert!(matches!(state.on_outcome(HttpOutcome::TooManyRequests { retry_after: Some(2) }), RetryAction::Wait(w) if w >= 1));
    assert!(matches!(
        state.on_outcome(HttpOutcome::TooManyRequests { retry_after: None }),
        RetryAction::Finish(Err(SlackCliError::RateLimited { .. }))
    ));
}

#[test]
fn a_request_is_sent_again_at_most_max_retries_times() {
    let mut state = RetryState::new(3);
    let mut waits = 0;
    loop {
        match state.on_outcome(HttpOutcome::TooManyRequests { retry_after: Some(1) }) {
            RetryAction::Wait(w) => {
                assert!(w >= 1);
                waits += 1;
            }
            RetryAction::Finish(r) => {
                assert!(matches!(r, Err(SlackCliError::RateLimited { .. })));
                break;
            }
        }
    }
    assert_eq!(waits, 3);
}

#[test]
fn ok_false_is_an_api_error_even_on_200() {
    let mut state = RetryState::new(3);
    let body = obj(vec![("ok", Json::Bool(false)), ("error", s("channel_not_found"))]);
    let error_body = ErrorResponse { error: Some("channel_not_found".into()), needed: None, provided: None };
    match state.on_outcome(HttpOutcome::Success { status: 200, body, error_body, retry_after: None }) {
        RetryAction::Finish(Err(e)) => assert_eq!(e.message(), "API Error: channel_not_found"),
        _ => panic!("expected an API error"),
    }
    let mut state = RetryState::new(3);
    match state.on_outcome(HttpOutcome::Failure { status: 502, parsed: None }) {
        RetryAction::Finish(Err(SlackCliError::Api { status, code, .. })) => {
            assert_eq!(status, 502);
            assert_eq!(code, "http_502");
        }
        _ => panic!("expected an HTTP error"),
    }
    let mut state = RetryState::new(3);
    let ok = obj(vec![("ok", Json::Bool(true)), ("n", Json::Number(JsonNumber::UInt(1)))]);
    let empty = ErrorResponse { error: None, needed: None, provided: None };
    assert!(matches!(state.on_outcome(HttpOutcome::Success { status: 200, body: ok, error_body: empty, retry_after: None }), RetryAction::Finish(Ok(_))));
}

#[test]
fn api_methods_must_stay_on_the_configured_origin() {
    let base = "https://slack.com/api/";
    assert_eq!(api_url(base, "auth.test").unwrap(), "https://slack.com/api/auth.test");
    assert!(api_url(base, "https://attacker.example/x").is_err());
    assert!(api_url(base, "//attacker.example/x").is_err());
    assert!(api_url(base, "a\\b").is_err());
}

#[test]
fn legacy_cbc_ciphertext_is_decryptable() {
    type Aes256CbcEnc = cbc::Encryptor<aes::Aes256>;

    let key = derive_key(LEGACY_KEY_PASSWORD, LEGACY_KEY_SALT);
    let iv = [0x11u8; LEGACY_IV_LENGTH];
    let plaintext = "legacy-token-value";

    let ciphertext = Aes256CbcEnc::new_from_slices(&key, &iv)
        .unwrap()
        .encrypt_padded_vec_mut::<Pkcs7>(plaintext.as_bytes());

    let encoded = format!("{}:{}", encode_hex(&iv), encode_hex(&ciphertext));
    assert!(is_legacy_encrypted(&encoded));
    assert!(!is_current_format(&encoded));

    let svc = service_with_key("irrelevant-master-key");
    assert_eq!(svc.decrypt(&encoded).unwrap(), plaintext);
}

#[test]
fn missing_profile_message_tells_how_to_set_it_up() {
    assert_eq!(
        slack_cli::config::no_config_message("work"),
        "No configuration found for profile \"work\". Use \"slack-cli config set --token <token> --profile work\" to set up."
    );
}

#[test]
fn rejects_tokens_that_cannot_become_a_header() {
    assert!(slack_cli::client::check_token_header("valid-token").is_ok());
    assert!(slack_cli::client::check_token_header("bad\ntoken").is_err());
}

#[test]
fn header_check_allows_tabs_and_non_ascii_but_not_delete() {
    assert!(slack_cli::client::check_token_header("tab\there").is_ok());
    assert!(slack_cli::client::check_token_header("xoxb-日本").is_ok());
    assert!(slack_cli::client::check_token_header("del\u{7f}").is_err());
    let err = slack_cli::client::check_token_header("cr\rlf").unwrap_err();
    assert_eq!(err.message(), "Invalid token: not a valid header value");
}

#[test]
fn only_a_top_level_token_without_profiles_is_migrated() {
    assert!(slack_cli::config::needs_legacy_migration(Some("xoxb-1"), false));
    assert!(!slack_cli::config::needs_legacy_migration(Some("xoxb-1"), true));
    assert!(!slack_cli::config::needs_legacy_migration(Some(""), false));
    assert!(!slack_cli::config::needs_legacy_migration(None, false));
}

#[test]
fn a_legacy_token_becomes_the_default_profile_or_fails_without_touching_the_store() {
    let mut m = manager();
    assert!(m.migrate_legacy_store(&slack_token(), Some("2024-01-01T00:00:00.000Z".to_string())).is_ok());
    assert_eq!(m.current_profile(), "default");
    assert!(matches!(m.pending(), PendingWrite::Save));
    assert_eq!(m.get_config(None).unwrap().unwrap().token, slack_token());

    let mut m = manager();
    let forged = format!("v2:{}:00:{}", "0".repeat(24), "0".repeat(32));
    let err = m.migrate_legacy_store(&forged, None).unwrap_err();
    assert_eq!(err.message(), "Failed to decrypt token");
    assert!(m.list_profiles().is_empty());
    assert!(matches!(m.pending(), PendingWrite::Nothing));
}

#[test]
fn profiles_read_back_by_argument_then_default() {
    let mut m = manager();
    m.set_token(&profile_token("d"), None).unwrap();
    m.set_token(&profile_token("w"), Some("work")).unwrap();
    assert_eq!(m.current_profile(), "default");
    m.use_profile("work").unwrap();
    assert_eq!(m.current_profile(), "work");
    assert_eq!(m.get_config(None).unwrap().unwrap().token, profile_token("w"));
    assert_eq!(m.get_config(Some("default")).unwrap().unwrap().token, profile_token("d"));
    assert!(m.get_config(Some("missing")).unwrap().is_none());
}

use slack_cli::cli::draft::{
    candidate_id, delete_after_send, generate_id, list_drafts, save_draft, DraftListing, MSG_NO_DRAFTS,
};
use indexmap::IndexMap;
use slack_cli::cli::history::{find_pair, insert_pair};
use slack_cli::cli::send::{parse_local_datetime, parse_schedule_time, ERR_INVALID_AT};
use slack_cli::cli::unread::{preview_messages, select_unread};
use slack_cli::cli::OutputFormat;
use slack_cli::client::{dry_run_answer, HttpOutcome, RetryAction, RetryState};
use slack_cli::config::{ConfigOptions, ConfigStore, ProfileConfigManager, StoredProfile, CONFIG_DIR_NAME};
use slack_cli::crypto::{is_current_format, CryptoOptions};
use slack_cli::error::{ErrorResponse, SlackCliError};
use slack_cli::json::{Json, JsonNumber};

fn s(v: &str) -> Json {
    Json::Str(v.to_string())
}

fn obj(fields: Vec<(&str, Json)>) -> Json {
    Json::Object(fields.into_iter().map(|(k, v)| (k.to_string(), v)).collect())
}

fn count(n: u64) -> Json {
    obj(vec![("unread_count", Json::Number(JsonNumber::UInt(n)))])
}

fn draft_with_id(id: &str) -> Json {
    obj(vec![("channel", s("general")), ("message", s("hi")), ("id", s(id)), ("createdAt", s("2024-01-01T00:00:00.000Z"))])
}

fn validation_text<T>(r: Result<T, SlackCliError>) -> String {
    match r {
        Err(SlackCliError::Validation(m)) => m,
        Err(e) => panic!("expected a validation error, got {}", e.message()),
        Ok(_) => panic!("expected a validation error"),
    }
}

#[test]
fn a_candidate_id_is_the_hex_of_the_drawn_bytes_unless_taken() {
    let existing = vec![draft_with_id("0a0b0c0d")];
    assert!(candidate_id(&existing, &[10, 11, 12, 13]).is_none());
    assert_eq!(candidate_id(&existing, &[1, 2, 3, 4]).unwrap(), "01020304");
    assert_eq!(candidate_id(&Vec::new(), &[0xff, 0, 0x10, 0xab]).unwrap(), "ff0010ab");
}

#[test]
fn an_id_is_always_found_when_no_draft_has_a_drawn_form() {
    let existing = vec![draft_with_id("a"), draft_with_id("not-hex-at-all")];
    let id = generate_id(&existing).unwrap();
    assert_eq!(id.len(), 8);
    assert!(id.chars().all(|c| c.is_ascii_hexdigit() && !c.is_ascii_uppercase()));
    let mut drafts = Vec::new();
    assert!(save_draft(&mut drafts, None, Some("alice"), "hello", None).is_ok());
    assert_eq!(drafts.len(), 1);
}

#[test]
fn rate_limit_waits_follow_retry_after_and_double_per_attempt() {
    let mut state = RetryState::new(5);
    for (attempt, low, high) in [(0u32, 8u64, 12u64), (1, 16, 24), (2, 32, 48)] {
        match state.on_outcome(HttpOutcome::TooManyRequests { retry_after: Some(10) }) {
            RetryAction::Wait(w) => assert!(low <= w && w <= high, "attempt {attempt}: {w}"),
            RetryAction::Finish(_) => panic!("expected a wait"),
        }
    }
    let mut state = RetryState::new(2);
    match state.on_outcome(HttpOutcome::TooManyRequests { retry_after: None }) {
        RetryAction::Wait(w) => assert_eq!(w, 1),
        RetryAction::Finish(_) => panic!("expected a wait"),
    }
}

#[test]
fn a_ratelimited_body_waits_by_its_retry_after() {
    let mut state = RetryState::new(3);
    let body = obj(vec![("ok", Json::Bool(false)), ("error", s("ratelimited"))]);
    let error_body = ErrorResponse { error: Some("ratelimited".into()), needed: None, provided: None };
    match state.on_outcome(HttpOutcome::Success { status: 200, body, error_body, retry_after: Some(30) }) {
        RetryAction::Wait(w) => assert!((24..=36).contains(&w), "{w}"),
        RetryAction::Finish(_) => panic!("expected a wait"),
    }
}

#[test]
fn text_in_no_known_form_is_refused() {
    for raw in ["tomorrow", "2024/01/02", "2024-01-02 noon", "01-02-2024"] {
        assert_eq!(validation_text(parse_local_datetime(raw, "bad time")), "bad time", "{raw}");
        assert_eq!(validation_text(parse_schedule_time(raw)), ERR_INVALID_AT, "{raw}");
    }
    for raw in ["2024-01-02", "2024-01-02T03:04", "2024-01-02T03:04:05", "2024-01-02 03:04", "2024-01-02 03:04:05"] {
        assert!(parse_local_datetime(raw, "bad time").is_ok(), "{raw}");
    }
}

#[test]
fn clearing_the_only_named_default_falls_back_to_default() {
    let mut crypto = CryptoOptions::default_options();
    crypto.master_key = Some("decisions-master-key".to_string());
    let mut mgr = match ProfileConfigManager::with_options(ConfigOptions {
        config_dir: Some(format!("/tmp/slack-cli-decisions/{CONFIG_DIR_NAME}")),
        crypto: Some(crypto),
    }) {
        Ok(m) => m,
        Err(e) => panic!("{}", e.message()),
    };
    mgr.set_token(&format!("xo{}-0000000000-work", "xb"), Some("work")).unwrap();
    assert_eq!(mgr.current_profile(), "work");
    assert_eq!(mgr.clear_config(Some("work")), "work");
    assert_eq!(mgr.current_profile(), "default");
}

#[test]
fn listing_no_drafts_says_so_in_a_table_and_is_empty_otherwise() {
    match list_drafts(Vec::new(), OutputFormat::Table) {
        DraftListing::Line(l) => assert_eq!(l, MSG_NO_DRAFTS),
        DraftListing::Value(_) => panic!("expected the no-drafts line"),
    }
    match list_drafts(Vec::new(), OutputFormat::Json) {
        DraftListing::Value(Json::Array(items)) => assert!(items.is_empty()),
        _ => panic!("expected an empty array"),
    }
    match list_drafts(vec![draft_with_id("0badf00d")], OutputFormat::Table) {
        DraftListing::Value(Json::Array(rows)) => {
            assert_eq!(rows.len(), 1);
            assert_eq!(rows[0].str_field("id").unwrap(), "0badf00d");
            assert_eq!(rows[0].str_field("target").unwrap(), "#general");
        }
        _ => panic!("expected rows"),
    }
    match list_drafts(vec![draft_with_id("0badf00d")], OutputFormat::Yaml) {
        DraftListing::Value(Json::Array(items)) => {
            assert_eq!(items.len(), 1);
            assert_eq!(items[0].str_field("createdAt").unwrap(), "2024-01-01T00:00:00.000Z");
        }
        _ => panic!("expected the stored drafts"),
    }
}

#[test]
fn a_dry_run_answers_ok_and_keeps_the_draft() {
    assert!(dry_run_answer(false).is_none());
    let answer = dry_run_answer(true).unwrap();
    assert_eq!(answer.get("ok").and_then(|v| v.as_bool()), Some(true));
    assert_eq!(answer.get("dry_run").and_then(|v| v.as_bool()), Some(true));
    assert!(!delete_after_send(false, &answer));
    assert!(delete_after_send(false, &obj(vec![("ok", Json::Bool(true))])));
}

#[test]
fn the_listing_fallback_keeps_unread_conversations_in_order() {
    let details = vec![count(3), count(0), obj(vec![("name", s("quiet"))]), count(5), count(1)];
    assert_eq!(select_unread(&details), vec![0, 3, 4]);
    assert!(select_unread(&Vec::new()).is_empty());
}

#[test]
fn two_pages_of_forty_are_counted_in_full_and_previewed_up_to_fifty() {
    let mut all = Vec::new();
    for page in 0..2 {
        for i in 0..40 {
            all.push(obj(vec![("ts", s(&format!("{page}-{i:02}")))]));
        }
    }
    assert_eq!(all.len(), 80);
    let shown = preview_messages(all);
    assert_eq!(shown.len(), 50);
    assert_eq!(shown[0].str_field("ts").unwrap(), "0-00");
    assert_eq!(shown[49].str_field("ts").unwrap(), "1-09");
}

#[test]
fn inserting_a_pair_twice_keeps_one_entry_with_the_new_value() {
    let mut pairs = Vec::new();
    insert_pair(&mut pairs, "U1".to_string(), "alice".to_string());
    insert_pair(&mut pairs, "U2".to_string(), "bob".to_string());
    insert_pair(&mut pairs, "U1".to_string(), "alicia".to_string());
    assert_eq!(pairs.len(), 2);
    assert_eq!(pairs[0].0, "U1");
    assert_eq!(find_pair(&pairs, "U1").unwrap(), "alicia");
    assert_eq!(find_pair(&pairs, "U2").unwrap(), "bob");
    assert!(find_pair(&pairs, "U3").is_none());
}

#[test]
fn a_migrated_token_reads_back_to_the_same_plaintext() {
    let mut crypto = CryptoOptions::default_options();
    crypto.master_key = Some("decisions-migration-key".to_string());
    let mut mgr = match ProfileConfigManager::with_options(ConfigOptions {
        config_dir: Some(format!("/tmp/slack-cli-decisions-migrate/{CONFIG_DIR_NAME}")),
        crypto: Some(crypto),
    }) {
        Ok(m) => m,
        Err(e) => panic!("{}", e.message()),
    };
    let plain = format!("xo{}-1111111111-plain", "xb");
    let mut profiles = IndexMap::new();
    profiles.insert(
        "default".to_string(),
        StoredProfile { token: plain.clone(), updated_at: "2024-01-01T00:00:00.000Z".to_string() },
    );
    mgr.use_store(ConfigStore { profiles, default_profile: Some("default".to_string()) });
    let first = mgr.get_config(None).unwrap().unwrap();
    assert_eq!(first.token, plain);
    let stored = mgr.store().profiles.get("default").unwrap().token.clone();
    assert_ne!(stored, plain);
    assert!(is_current_format(&stored));
    let second = mgr.get_config(None).unwrap().unwrap();
    assert_eq!(second.token, plain);
    assert_eq!(second.updated_at, "2024-01-01T00:00:00.000Z");
    assert_eq!(mgr.get_config_or_error(None).unwrap().token, plain);
}

use chrono::{Local, NaiveDateTime, TimeZone};
use slack_cli::cli::others::{reminder_time, ERR_UNRESOLVED_TIME};
use slack_cli::cli::config_cmd::{non_empty, token_source, TokenSource, ERR_BOTH_TOKEN_SOURCES, ERR_EMPTY_STDIN};
use slack_cli::cli::download::{file_name_from_url, safe_file_name, should_attach_token, FALLBACK_FILE_NAME};
use slack_cli::cli::draft::{
    delete_draft, drafts_from, find_draft, format_target, generate_id, save_draft, truncate, DraftCommand,
    DraftSubcommand,
};
use slack_cli::cli::edit::{
    validate_message_or_file as edit_validate_message_or_file, validate_message_ts, ERR_BOTH_MESSAGE_AND_FILE,
    ERR_INVALID_TS, ERR_MESSAGE_OR_FILE,
};
use slack_cli::cli::history::{resolve_username, HistoryCommand, HistoryOptions, DEFAULT_MESSAGE_COUNT, ERR_NUMBER_NOT_INT, ERR_NUMBER_RANGE, ERR_SINCE, ERR_THREAD_TS};
use slack_cli::cli::invite::{is_user_id as invite_is_user_id, parse_user_references, strip_at, ERR_NO_USERS};
use slack_cli::cli::others::report_warnings;
use slack_cli::cli::reaction::{normalize_emoji, validate_message_timestamp, ERR_INVALID_TIMESTAMP};
use slack_cli::cli::search::{
    parse_bounded, sort_dir_values, sort_values, validate_one_of, COUNT_MAX, COUNT_MIN, DEFAULT_COUNT, DEFAULT_PAGE,
    PAGE_MAX, PAGE_MIN,
};
use slack_cli::cli::send::{
    parse_local_datetime, resolve_post_at, validate_message_or_file, validate_target, validate_thread_ts, SendCommand,
    ERR_BOTH_SCHEDULE, ERR_CHANNEL_WITH_DM, ERR_INVALID_AFTER, ERR_INVALID_AT, ERR_INVALID_THREAD_TS,
    ERR_MESSAGE_AND_FILE, ERR_NO_MESSAGE, ERR_NO_TARGET, ERR_PAST_SCHEDULE, ERR_USER_AND_EMAIL,
};
use slack_cli::cli::unread::{format_channel_name, plain_display_name};
use slack_cli::cli::upload::{
    is_trusted_upload_url, payload_source, pick_file_fields, upload_filename, validate_thread_ts as upload_validate_thread_ts,
    PayloadSource, UploadCommand, DEFAULT_CONTENT_FILENAME, ERR_BOTH_SOURCES, ERR_INVALID_THREAD, ERR_NO_SOURCE,
};
use slack_cli::cli::{parse_positive_int, GlobalOpts, OutputFormat};
use slack_cli::common::{channel_label, is_channel_id, is_message_ts};
use slack_cli::error::SlackCliError;
use slack_cli::json::{Json, JsonNumber};
use slack_cli::sanitize::sanitize_terminal_text;

fn s(v: &str) -> Json {
    Json::Str(v.to_string())
}

fn obj(fields: Vec<(&str, Json)>) -> Json {
    Json::Object(fields.into_iter().map(|(k, v)| (k.to_string(), v)).collect())
}

fn text<'a>(v: &'a Json, key: &str) -> Option<&'a str> {
    v.get(key).and_then(|x| x.as_str()).map(|x| x.as_str())
}

fn err_text<T>(r: Result<T, SlackCliError>) -> String {
    match r {
        Ok(_) => panic!("expected an error"),
        Err(e) => e.message(),
    }
}

fn send_cmd() -> SendCommand {
    SendCommand {
        channel: None,
        user: None,
        email: None,
        message: None,
        file: None,
        blocks: None,
        blocks_file: None,
        thread: None,
        at: None,
        after: None,
    }
}

fn some(v: &str) -> Option<String> {
    Some(v.to_string())
}

#[test]
fn target_validation_reports_the_first_violation() {
    let mut only_message = send_cmd();
    only_message.message = some("hi");
    assert_eq!(err_text(validate_target(&only_message)), ERR_NO_TARGET);

    let mut channel_and_user = send_cmd();
    channel_and_user.channel = some("general");
    channel_and_user.user = some("alice");
    channel_and_user.message = some("hi");
    assert_eq!(err_text(validate_target(&channel_and_user)), ERR_CHANNEL_WITH_DM);

    let mut channel_and_email = send_cmd();
    channel_and_email.channel = some("general");
    channel_and_email.email = some("a@example.com");
    channel_and_email.message = some("hi");
    assert_eq!(err_text(validate_target(&channel_and_email)), ERR_CHANNEL_WITH_DM);

    let mut user_and_email = send_cmd();
    user_and_email.user = some("alice");
    user_and_email.email = some("a@example.com");
    user_and_email.message = some("hi");
    assert_eq!(err_text(validate_target(&user_and_email)), ERR_USER_AND_EMAIL);
}

#[test]
fn body_validation_requires_message_file_or_blocks() {
    let mut cmd = send_cmd();
    cmd.channel = some("general");
    assert_eq!(err_text(validate_message_or_file(&cmd)), ERR_NO_MESSAGE);

    cmd.message = some("hi");
    cmd.file = some("body.txt");
    assert_eq!(err_text(validate_message_or_file(&cmd)), ERR_MESSAGE_AND_FILE);

    let mut blocks_only = send_cmd();
    blocks_only.channel = some("general");
    blocks_only.blocks = some("[]");
    assert!(validate_message_or_file(&blocks_only).is_ok());
}

#[test]
fn send_thread_timestamps_must_be_ten_dot_six_digits() {
    assert!(validate_thread_ts(None).is_ok());
    assert!(validate_thread_ts(Some("1700000000.000100")).is_ok());
    for raw in ["1700000000", "170000000.000100", "1700000000.0001", "abc.def", "1700000000.00.100"] {
        assert_eq!(err_text(validate_thread_ts(Some(raw))), ERR_INVALID_THREAD_TS, "{raw}");
    }
}

#[test]
fn schedule_rejects_conflicts_loose_formats_and_the_past() {
    let now = 1_700_000_000;
    assert_eq!(err_text(resolve_post_at(Some("1700000600"), Some("5"), now)), ERR_BOTH_SCHEDULE);
    for raw in ["Jan 1, 2030", "2030/01/02", "", "12abc"] {
        assert_eq!(err_text(resolve_post_at(Some(raw), None, now)), ERR_INVALID_AT, "{raw}");
    }
    assert_eq!(err_text(resolve_post_at(Some("1699999999"), None, now)), ERR_PAST_SCHEDULE);
    assert_eq!(err_text(resolve_post_at(Some(&now.to_string()), None, now)), ERR_PAST_SCHEDULE);
    for raw in ["0", "-5", "3.5", "abc"] {
        assert_eq!(err_text(resolve_post_at(None, Some(raw), now)), ERR_INVALID_AFTER, "{raw}");
    }
    assert_eq!(resolve_post_at(None, Some("30"), now).unwrap(), Some(now + 1800));
    assert_eq!(resolve_post_at(None, None, now).unwrap(), None);
}

#[test]
fn schedule_accepts_unix_seconds_and_explicit_formats() {
    let now = 1_700_000_000;
    assert_eq!(resolve_post_at(Some("1700000600"), None, now).unwrap(), Some(1_700_000_600));
    assert_eq!(resolve_post_at(Some("2030-01-02T03:04:05Z"), None, now).unwrap(), Some(1_893_553_445));
    let local = resolve_post_at(Some("2030-01-02 03:04:05"), None, now).unwrap().unwrap();
    let expected = Local
        .from_local_datetime(&NaiveDateTime::parse_from_str("2030-01-02 03:04:05", "%Y-%m-%d %H:%M:%S").unwrap())
        .earliest()
        .unwrap()
        .timestamp();
    assert_eq!(local, expected);
    assert!(resolve_post_at(Some("2030-01-02"), None, now).unwrap().is_some());
}

#[test]
fn channel_labels_do_not_double_the_hash_or_decorate_ids() {
    assert_eq!(channel_label("general"), "#general");
    assert_eq!(channel_label("#general"), "#general");
    assert_eq!(channel_label("C0123456789"), "C0123456789");
}

#[test]
fn channel_ids_need_a_prefix_and_eight_more_characters() {
    assert!(is_channel_id("C12345678"));
    assert!(is_channel_id("D0123456789"));
    assert!(!is_channel_id("C1234567"));
    assert!(!is_channel_id("c012345678"));
    assert!(!is_channel_id("general"));
    assert!(!is_channel_id(""));
}

#[test]
fn terminal_sequences_are_stripped_from_messages() {
    let dirty = "gene\u{1b}[31mral\u{1b}]0;title\u{7}\u{7}\tok\n";
    assert_eq!(sanitize_terminal_text(dirty), "general\tok\n");
}

#[test]
fn message_timestamps_must_be_ten_dot_six_digits() {
    assert!(validate_message_ts("1700000000.000100").is_ok());
    for bad in [
        "1700000000",
        "1700000000.0001",
        "170000000.000100",
        "1700000000.0001000",
        "17000000000.000100",
        "abcdefghij.000100",
        " 1700000000.000100",
        "1700000000.000100 ",
        "1700000000.00010a",
        "",
    ] {
        assert_eq!(err_text(validate_message_ts(bad)), ERR_INVALID_TS, "{bad:?} should have been rejected");
    }
}

#[test]
fn message_or_file_rules_match_the_typescript_validators() {
    assert_eq!(err_text(edit_validate_message_or_file(Some("m"), Some("f"), None, None)), ERR_BOTH_MESSAGE_AND_FILE);
    assert_eq!(err_text(edit_validate_message_or_file(None, None, None, None)), ERR_MESSAGE_OR_FILE);
    assert!(edit_validate_message_or_file(None, None, Some("[]"), None).is_ok());
    assert!(edit_validate_message_or_file(None, None, None, Some("b.json")).is_ok());
}

#[test]
fn timestamps_must_be_ten_dot_six_digits() {
    assert!(validate_message_timestamp("1700000000.000100").is_ok());
    for raw in ["1755400000.1", "17554000001.000100", "1700000000", "170000000a.000100", " 1700000000.000100", ""] {
        assert_eq!(err_text(validate_message_timestamp(raw)), ERR_INVALID_TIMESTAMP, "{raw:?}");
    }
}

#[test]
fn emoji_loses_one_colon_on_each_end() {
    assert_eq!(normalize_emoji(":tada:"), "tada");
    assert_eq!(normalize_emoji("tada"), "tada");
    assert_eq!(normalize_emoji("::tada::"), ":tada:");
    assert_eq!(normalize_emoji("+1::skin-tone-2"), "+1::skin-tone-2");
    assert!(normalize_emoji(":").is_empty());
}

#[test]
fn user_references_are_trimmed_and_emptied_out() {
    assert_eq!(parse_user_references(" U1 , ,U2,").unwrap(), vec!["U1".to_string(), "U2".to_string()]);
    assert_eq!(err_text(parse_user_references(",, ")), ERR_NO_USERS);
}

#[test]
fn user_ids_are_told_apart_from_names() {
    assert!(invite_is_user_id("U0123456789"));
    assert!(!invite_is_user_id("U123"));
    assert!(!invite_is_user_id("daichi"));
    assert!(!invite_is_user_id("C0123456789"));
    assert_eq!(strip_at("@daichi"), "daichi");
    assert_eq!(strip_at("daichi"), "daichi");
}

fn draft(sub: DraftSubcommand) -> DraftCommand {
    DraftCommand { command: sub }
}

#[test]
fn only_send_needs_a_client() {
    assert!(draft(DraftSubcommand::Send { id: "d1".into(), keep: false }).needs_client());
    assert!(!draft(DraftSubcommand::List).needs_client());
    assert!(!draft(DraftSubcommand::Show { id: "d1".into() }).needs_client());
    assert!(!draft(DraftSubcommand::Delete { id: "d1".into() }).needs_client());
    assert!(!draft(DraftSubcommand::Save { channel: None, user: None, message: "hi".into(), thread: None }).needs_client());
}

#[test]
fn targets_never_double_the_sigil() {
    assert_eq!(format_target(&obj(vec![("channel", s("general"))])), "#general");
    assert_eq!(format_target(&obj(vec![("channel", s("#general"))])), "#general");
    assert_eq!(format_target(&obj(vec![("channel", s("C012345678"))])), "C012345678");
    assert_eq!(format_target(&obj(vec![("user", s("alice"))])), "@alice");
    assert_eq!(format_target(&obj(vec![("user", s("@alice"))])), "@alice");
}

#[test]
fn sanitizer_strips_escape_sequences_but_keeps_tabs_and_newlines() {
    assert_eq!(sanitize_terminal_text("a\u{1b}]0;title\u{7}b"), "ab");
    assert_eq!(sanitize_terminal_text("a\u{1b}[31mred\u{1b}[0m"), "ared");
    assert_eq!(sanitize_terminal_text("a\tb\nc"), "a\tb\nc");
    assert_eq!(sanitize_terminal_text("a\u{0}\u{7f}\u{9b}b"), "ab");
    assert_eq!(sanitize_terminal_text("日本語 🎉"), "日本語 🎉");
    assert_eq!(format_target(&obj(vec![("channel", s("gen\u{1b}[2Jeral"))])), "#general");
}

#[test]
fn truncation_never_splits_a_character() {
    assert_eq!(truncate("abc", 5), "abc");
    assert_eq!(truncate("🎉🎉🎉", 2), "🎉🎉...");
    assert_eq!(truncate("あいうえお", 5), "あいうえお");
}

#[test]
fn draft_message_timestamps_need_ten_dot_six_digits() {
    assert!(is_message_ts("1700000000.000100"));
    for bad in ["1700000000", "170000000.000100", "1700000000.00010", "a.b", ""] {
        assert!(!is_message_ts(bad), "{bad:?} should be rejected");
    }
}

#[test]
fn channel_ids_need_at_least_nine_characters() {
    assert!(is_channel_id("C12345678"));
    assert!(is_channel_id("D012345678"));
    assert!(!is_channel_id("C1234567"));
    assert!(!is_channel_id("general"));
    assert!(!is_channel_id(""));
}

#[test]
fn generated_ids_never_collide_with_existing_ones() {
    let existing: Vec<Json> = (0..64).map(|i| obj(vec![("id", s(&format!("{i:08x}"))), ("message", s("x"))])).collect();
    let id = generate_id(&existing).unwrap();
    assert_eq!(id.len(), 8);
    assert!(find_draft(&existing, &id).is_none());
}

#[test]
fn saved_drafts_can_be_found_and_deleted() {
    let mut drafts = drafts_from(Json::Array(vec![
        obj(vec![("id", s("a")), ("message", s("x"))]),
        obj(vec![("id", Json::Number(JsonNumber::Int(1))), ("message", s("not a draft"))]),
    ]));
    assert_eq!(drafts.len(), 1);
    let (id, _) = save_draft(&mut drafts, Some("general"), None, "hello", None).unwrap();
    assert_eq!(drafts.len(), 2);
    let i = find_draft(&drafts, &id).unwrap();
    assert_eq!(text(&drafts[i], "message"), Some("hello"));
    assert_eq!(text(&drafts[i], "channel"), Some("general"));
    let rest = delete_draft(drafts, &id).unwrap();
    assert_eq!(rest.len(), 1);
    assert_eq!(err_text(delete_draft(rest, "missing")), "Draft not found: missing");
}

#[test]
fn sort_and_sort_dir_report_the_typescript_messages() {
    assert_eq!(
        err_text(validate_one_of("bogus", &sort_values(), "sort")),
        "Invalid sort 'bogus'. Must be one of: score, timestamp"
    );
    assert_eq!(
        err_text(validate_one_of("sideways", &sort_dir_values(), "sort direction")),
        "Invalid sort direction 'sideways'. Must be one of: asc, desc"
    );
    assert_eq!(validate_one_of("asc", &sort_dir_values(), "x").unwrap(), "asc");
}

#[test]
fn number_and_page_are_parsed_strictly() {
    assert_eq!(parse_bounded(None, DEFAULT_COUNT, COUNT_MIN, COUNT_MAX, "Count").unwrap(), 20);
    assert_eq!(parse_bounded(Some(" 50 "), DEFAULT_COUNT, COUNT_MIN, COUNT_MAX, "Count").unwrap(), 50);
    for raw in ["5abc", "3.7", "abc", ""] {
        assert_eq!(
            err_text(parse_bounded(Some(raw), DEFAULT_COUNT, COUNT_MIN, COUNT_MAX, "Count")),
            "Count must be a number",
            "{raw:?} should have been rejected"
        );
    }
    assert_eq!(err_text(parse_bounded(Some("0"), DEFAULT_COUNT, COUNT_MIN, COUNT_MAX, "Count")), "Count must be at least 1");
    assert_eq!(err_text(parse_bounded(Some("101"), DEFAULT_COUNT, COUNT_MIN, COUNT_MAX, "Count")), "Count must be at most 100");
    assert_eq!(err_text(parse_bounded(Some("101"), DEFAULT_PAGE, PAGE_MIN, PAGE_MAX, "Page")), "Page must be at most 100");
}

#[test]
fn blank_values_are_rejected() {
    assert_eq!(err_text(non_empty("   ", ERR_EMPTY_STDIN)), ERR_EMPTY_STDIN);
    assert_eq!(non_empty(" abc \n", ERR_EMPTY_STDIN).unwrap(), "abc");
}

#[test]
fn token_flag_and_token_stdin_cannot_be_combined() {
    assert_eq!(err_text(token_source(Some("t"), true)), ERR_BOTH_TOKEN_SOURCES);
}

#[test]
fn token_flag_is_trimmed() {
    let token = match token_source(Some("  abc  "), false).unwrap() {
        TokenSource::Flag(t) => t,
        _ => panic!("the flag is the source"),
    };
    assert_eq!(non_empty(&token, "Token cannot be empty").unwrap(), "abc");
}

fn global(format: OutputFormat, json: bool) -> GlobalOpts {
    let mut g = GlobalOpts::defaults();
    g.format = format;
    g.json = json;
    g
}

#[test]
fn json_shorthand_wins_over_format() {
    assert_eq!(global(OutputFormat::Csv, true).output_format(), OutputFormat::Json);
    assert_eq!(global(OutputFormat::Csv, false).output_format(), OutputFormat::Csv);
}

#[test]
fn default_format_is_table() {
    assert_eq!(GlobalOpts::defaults().output_format(), OutputFormat::Table);
}

#[test]
fn unknown_format_names_are_refused() {
    assert_eq!(OutputFormat::from_name("yaml"), Ok(OutputFormat::Yaml));
    assert_eq!(OutputFormat::from_name("markdown").unwrap_err(), "Unknown output format: markdown");
}

#[test]
fn positive_integers_reject_anything_but_digits() {
    const MSG: &str = "--limit must be a positive integer";
    assert_eq!(parse_positive_int(" 25 ", MSG).unwrap(), 25);
    for raw in ["abc", "12abc", "3.7", "-1", "0", ""] {
        assert_eq!(err_text(parse_positive_int(raw, MSG)), MSG, "{raw:?} should have been rejected");
    }
}

fn upload_cmd(channel: &str) -> UploadCommand {
    UploadCommand {
        channel: channel.to_string(),
        file: None,
        content: None,
        filename: None,
        title: None,
        message: None,
        filetype: None,
        thread: None,
    }
}

#[test]
fn upload_thread_timestamps_must_be_ten_dot_six_digits() {
    assert!(upload_validate_thread_ts(None).is_ok());
    assert!(upload_validate_thread_ts(Some("1700000000.000100")).is_ok());
    for invalid in ["1700000000", "170000000.000100", "1700000000.00010", "abcdefghij.000100", "1700000000.0001a0"] {
        assert_eq!(err_text(upload_validate_thread_ts(Some(invalid))), ERR_INVALID_THREAD, "{invalid:?} should have been rejected");
    }
}

#[test]
fn file_and_content_are_mutually_exclusive_and_one_is_required() {
    let mut cmd = upload_cmd("general");
    assert_eq!(err_text(payload_source(&cmd)), ERR_NO_SOURCE);
    cmd.file = some("notes.md");
    cmd.content = some("hi");
    assert_eq!(err_text(payload_source(&cmd)), ERR_BOTH_SOURCES);
}

#[test]
fn content_without_filename_defaults_to_file_txt() {
    let mut cmd = upload_cmd("general");
    cmd.content = some("hello");
    let source = payload_source(&cmd).unwrap();
    assert!(matches!(&source, PayloadSource::Content(c) if c == "hello"));
    assert_eq!(upload_filename(&cmd.filename, &source), DEFAULT_CONTENT_FILENAME);
    cmd.filename = some("snippet.py");
    assert_eq!(upload_filename(&cmd.filename, &source), "snippet.py");
}

#[test]
fn files_are_named_after_their_basename() {
    let source = PayloadSource::File("dir/sub/report.csv".to_string());
    assert_eq!(upload_filename(&None, &source), "report.csv");
}

#[test]
fn only_the_six_documented_file_keys_survive() {
    let picked = pick_file_fields(&obj(vec![
        ("id", s("F1")),
        ("name", s("a.csv")),
        ("mimetype", s("text/csv")),
        ("permalink_public", Json::Null),
    ]));
    assert_eq!(text(&picked, "id"), Some("F1"));
    assert_eq!(text(&picked, "name"), Some("a.csv"));
    assert!(picked.get("mimetype").is_none());
    assert!(picked.get("permalink_public").is_none());
}

#[test]
fn upload_urls_outside_slack_are_rejected() {
    let base = "https://slack.com/api/";
    assert!(is_trusted_upload_url("https://files.slack.com/upload/v1/x", base));
    assert!(!is_trusted_upload_url("https://attacker.example/upload", base));
    assert!(!is_trusted_upload_url("http://files.slack.com/upload", base));
}

#[test]
fn file_names_come_from_the_decoded_url_basename() {
    assert_eq!(file_name_from_url("https://files.slack.com/files-pri/T1-F1/%E8%B3%87%E6%96%99.pdf"), "資料.pdf");
    assert_eq!(file_name_from_url("https://files.slack.com/files-pri/T1-F1/report.csv?t=xoxe"), "report.csv");
}

#[test]
fn traversal_attempts_in_the_file_name_are_neutralised() {
    assert_eq!(safe_file_name("../../etc/passwd"), "passwd");
    assert_eq!(safe_file_name(".."), FALLBACK_FILE_NAME);
    assert_eq!(safe_file_name(""), FALLBACK_FILE_NAME);
    assert_eq!(file_name_from_url("https://files.slack.com/x/%2e%2e%2f%2e%2e"), FALLBACK_FILE_NAME);
}

#[test]
fn only_slack_file_hosts_get_the_bearer_token() {
    let base = "https://slack.com/api/";
    for trusted in [
        "https://files.slack.com/files-pri/T1-F1/a.csv",
        "https://slack.com/files/a",
        "https://a.slack-edge.com/x",
        "https://slack-files.com/x",
    ] {
        assert!(should_attach_token(trusted, base), "{trusted} should be trusted");
    }
    for untrusted in [
        "https://attacker.example/steal",
        "https://notslack.com/x",
        "http://files.slack.com/x",
        "https://files.slack.com.attacker.example/x",
    ] {
        assert!(!should_attach_token(untrusted, base), "{untrusted} must not receive the token");
    }
}

fn history_cmd(channel: &str) -> HistoryCommand {
    HistoryCommand { channel: channel.to_string(), number: None, since: None, thread: None, with_link: false }
}

#[test]
fn number_is_parsed_strictly_and_range_checked() {
    let mut cmd = history_cmd("C0123ABCD");
    cmd.number = some("12abc");
    assert_eq!(err_text(HistoryOptions::from_command(&cmd)), ERR_NUMBER_NOT_INT);
    cmd.number = some("1001");
    assert_eq!(err_text(HistoryOptions::from_command(&cmd)), ERR_NUMBER_RANGE);
    cmd.number = some(" 25 ");
    assert_eq!(HistoryOptions::from_command(&cmd).unwrap().limit, 25);
    cmd.number = None;
    assert_eq!(HistoryOptions::from_command(&cmd).unwrap().limit, DEFAULT_MESSAGE_COUNT);
}

#[test]
fn thread_timestamp_format_is_validated_and_wins_over_number_and_since() {
    let mut cmd = history_cmd("C0123ABCD");
    cmd.thread = some("17000000.1");
    assert_eq!(err_text(HistoryOptions::from_command(&cmd)), ERR_THREAD_TS);
    cmd.thread = some("1700000000.000100");
    cmd.number = some("not a number");
    cmd.since = some("nonsense");
    let options = HistoryOptions::from_command(&cmd).unwrap();
    assert_eq!(options.thread.as_deref(), Some("1700000000.000100"));
    assert!(options.oldest.is_none());
    assert_eq!(options.warnings.len(), 2);
}

#[test]
fn since_accepts_the_documented_formats_only() {
    assert_eq!(parse_local_datetime("1700000000", ERR_SINCE).unwrap(), 1_700_000_000);
    assert_eq!(parse_local_datetime("2024-01-01T00:00:00+09:00", ERR_SINCE).unwrap(), 1_704_034_800);
    let date_only = parse_local_datetime("2024-01-01", ERR_SINCE).unwrap();
    let with_time = parse_local_datetime("2024-01-01 00:00:00", ERR_SINCE).unwrap();
    assert_eq!(date_only, with_time);
    for bad in ["Jan 1, 2024", "2024/01/01", "", "abc"] {
        assert_eq!(err_text(parse_local_datetime(bad, ERR_SINCE)), ERR_SINCE, "{bad:?} should have been rejected");
    }
}

#[test]
fn unknown_authors_follow_the_history_rules() {
    let users = vec![("U1".to_string(), "alice".to_string())];
    assert_eq!(resolve_username(&obj(vec![("user", s("U1"))]), &users), "alice");
    assert_eq!(resolve_username(&obj(vec![("user", s("U9"))]), &users), "Unknown User");
    assert_eq!(resolve_username(&obj(vec![("bot_id", s("B1"))]), &users), "Bot");
    assert_eq!(resolve_username(&obj(vec![]), &users), "Unknown");
}

#[test]
fn warnings_are_deduplicated_and_written_to_the_given_stream() {
    let response = obj(vec![
        ("ok", Json::Bool(true)),
        ("warning", s("already_in_channel")),
        ("response_metadata", obj(vec![("warnings", Json::Array(vec![s("already_in_channel"), s("missing_charset")]))])),
    ]);
    let lines = report_warnings(&response);
    assert_eq!(lines.len(), 2);
    assert!(lines[0].contains("already_in_channel"));
    assert!(lines[1].contains("missing_charset"));
    assert!(report_warnings(&obj(vec![("ok", Json::Bool(true))])).is_empty());
}

#[test]
fn channel_names_never_get_a_double_prefix() {
    assert_eq!(format_channel_name("general"), "#general");
    assert_eq!(format_channel_name("#general"), "#general");
    assert_eq!(format_channel_name("@alice"), "@alice");
    assert_eq!(plain_display_name(&obj(vec![("id", s("D1"))])), "");
}

#[test]
fn add_at_rejects_the_loose_formats_date_parse_used_to_accept() {
    for raw in ["Jan 1, 2024", "2024/01/01", "Mon Jan 01 2024 10:00:00 GMT+0900", "tomorrow", "2026-13-45", ""] {
        assert_eq!(err_text(reminder_time(Some(raw), None, 0)), ERR_UNRESOLVED_TIME, "{raw:?} should not be accepted");
    }
}

#[test]
fn numeric_flags_take_digits_only_so_a_plus_sign_is_refused() {
    const MSG: &str = "--limit must be a positive integer";
    for raw in ["+5", " +5 ", "+", "5+"] {
        assert_eq!(err_text(parse_positive_int(raw, MSG)), MSG, "{raw:?} should have been rejected");
    }
    assert_eq!(parse_positive_int("\t4294967295\n", MSG).unwrap(), u32::MAX);
    assert_eq!(err_text(parse_positive_int("4294967296", MSG)), MSG);
}

#[test]
fn history_options_succeed_for_valid_flags_and_a_timezone_free_since() {
    let mut cmd = history_cmd("C0123ABCD");
    cmd.number = Some(" 1000 ".to_string());
    let options = HistoryOptions::from_command(&cmd).unwrap();
    assert_eq!(options.limit, 1000);
    assert!(options.oldest.is_none());
    assert!(options.warnings.is_empty());
    cmd.since = Some("2024-01-01T00:00:00Z".to_string());
    let options = HistoryOptions::from_command(&cmd).unwrap();
    assert_eq!(options.oldest.as_deref(), Some("1704067200"));
}

#[test]
fn saving_a_draft_with_one_target_succeeds() {
    let mut drafts = Vec::new();
    assert!(save_draft(&mut drafts, None, Some("@alice"), "hi", None).is_ok());
    assert!(save_draft(&mut drafts, Some("general"), None, "hi", Some("1700000000.000100")).is_ok());
    assert_eq!(drafts.len(), 2);
}

#[test]
fn unread_previews_fifty_messages_and_marks_every_channel() {
    let messages: Vec<Json> = (0..60).map(|i| Json::Number(JsonNumber::UInt(i))).collect();
    let preview = slack_cli::cli::unread::preview_messages(messages);
    assert_eq!(preview.len(), 50);
    assert!(matches!(preview[49], Json::Number(JsonNumber::UInt(49))));
    let channels: Vec<slack_cli::cli::unread::UnreadChannel> = ["C1", "C2", "C3"]
        .iter()
        .map(|id| slack_cli::cli::unread::UnreadChannel {
            id: id.to_string(),
            name: String::new(),
            unread_count: 1,
            last_message_ts: None,
        })
        .collect();
    assert_eq!(slack_cli::cli::unread::channels_to_mark(&channels), vec!["C1", "C2", "C3"]);
    let zero = Json::Object(vec![("unread_count".to_string(), Json::Number(JsonNumber::UInt(0)))]);
    let two = Json::Object(vec![("unread_count".to_string(), Json::Number(JsonNumber::UInt(2)))]);
    assert!(!slack_cli::cli::unread::counts_as_unread(&zero));
    assert!(slack_cli::cli::unread::counts_as_unread(&two));
    assert!(!slack_cli::cli::unread::counts_as_unread(&Json::Object(vec![])));
}

#[test]
fn a_sent_draft_posts_its_text_thread_and_channel() {
    let draft = Json::Object(vec![
        ("channel".to_string(), Json::Str("general".to_string())),
        ("message".to_string(), Json::Str("hi".to_string())),
        ("thread".to_string(), Json::Str("1700000000.000100".to_string())),
    ]);
    match slack_cli::cli::draft::draft_send_body(&draft, "C1") {
        Json::Object(fields) => {
            let keys: Vec<&str> = fields.iter().map(|(k, _)| k.as_str()).collect();
            assert_eq!(keys, vec!["text", "thread_ts", "channel"]);
            assert!(matches!(&fields[2].1, Json::Str(c) if c == "C1"));
        }
        _ => panic!("expected an object"),
    }
}

#[test]
fn saved_file_names_never_escape_the_directory() {
    for raw in ["../../etc/passwd", "..", ".", "", "a/b\\c", "\0..\0", "dir/"] {
        let name = safe_file_name(raw);
        assert!(!name.is_empty() && !name.contains('/') && !name.contains('\\'));
        assert!(name != "." && name != "..");
    }
    assert_eq!(safe_file_name("../../etc/passwd"), "passwd");
    assert_eq!(safe_file_name(".."), FALLBACK_FILE_NAME);
}

use slack_cli::cli::bookmark::{format_saved_at, sanitize_single_line};
use slack_cli::cli::canvas::section_row;
use slack_cli::cli::channel::{channel_info_value, success_message, PURPOSE_FIELD, TOPIC_FIELD};
use slack_cli::cli::channels::{channel_types, format_channel_display, format_created, format_created_date, map_channel};
use slack_cli::cli::{success_line, GlobalOpts, OutputFormat};
use slack_cli::common::{
    channel_label, channel_lookup_types, fallback_lookup_types, find_channel_id, format_unix_date,
    format_unix_rfc3339, is_channel_id, is_message_ts,
    is_user_id, not_found_error, CHANNEL_NOT_FOUND_CODE, INVALID_TIMESTAMP, MISSING_SCOPE_CODE,
};
use slack_cli::error::SlackCliError;
use slack_cli::json::{Json, JsonNumber};
use slack_cli::sanitize::sanitize_terminal_text;
use slack_cli::width::{display_width, truncate_display};

fn s(v: &str) -> Json {
    Json::Str(v.to_string())
}

fn obj(fields: Vec<(&str, Json)>) -> Json {
    Json::Object(fields.into_iter().map(|(k, v)| (k.to_string(), v)).collect())
}

fn field<'a>(v: &'a Json, key: &str) -> Option<&'a Json> {
    v.get(key)
}

fn text<'a>(v: &'a Json, key: &str) -> Option<&'a str> {
    v.get(key).and_then(|x| x.as_str()).map(|x| x.as_str())
}

fn global_with(format: OutputFormat, dry_run: bool) -> GlobalOpts {
    let mut g = GlobalOpts::defaults();
    g.format = format;
    g.dry_run = dry_run;
    g
}

#[test]
fn single_line_sanitize_collapses_whitespace_including_the_bom() {
    assert_eq!(sanitize_single_line(" a\t\n b\u{feff}c "), "a b c");
}

#[test]
fn bookmark_timestamps_out_of_range_do_not_panic() {
    assert_eq!(format_saved_at(Some(0)), "1970-01-01T00:00:00.000Z");
    assert_eq!(format_saved_at(None), INVALID_TIMESTAMP);
    assert_eq!(format_saved_at(Some(i64::MAX)), INVALID_TIMESTAMP);
}

#[test]
fn sanitize_drops_escape_sequences_but_keeps_tabs_and_newlines() {
    assert_eq!(sanitize_terminal_text("\u{1b}[31mred\u{1b}[0m"), "red");
    assert_eq!(sanitize_terminal_text("\u{1b}]0;title\u{7}general"), "general");
    assert_eq!(sanitize_terminal_text("a\tb\nc"), "a\tb\nc");
    assert_eq!(sanitize_terminal_text("a\u{7f}\u{9b}b"), "ab");
    assert_eq!(sanitize_terminal_text("絵文字🎉"), "絵文字🎉");
}

#[test]
fn section_text_is_concatenated_without_separators() {
    let section = obj(vec![
        ("id", s("s1")),
        (
            "elements",
            Json::Array(vec![
                obj(vec![("text", s("前半"))]),
                obj(vec![("elements", Json::Array(vec![obj(vec![("text", s("後半"))])]))]),
                obj(vec![("type", s("image"))]),
            ]),
        ),
    ]);
    assert_eq!(text(&section_row(&section), "content"), Some("前半後半"));
}

#[test]
fn success_messages_name_the_field_and_the_channel() {
    assert_eq!(success_message(TOPIC_FIELD, "#general"), "✓ Topic updated for #general");
    assert_eq!(success_message(PURPOSE_FIELD, "C0123456789"), "✓ Purpose updated for C0123456789");
}

fn sample_channel() -> Json {
    obj(vec![
        ("id", s("C0123456789")),
        ("name", s("general")),
        ("is_private", Json::Bool(false)),
        ("created", Json::Number(JsonNumber::Int(1_554_076_800))),
        ("num_members", Json::Number(JsonNumber::UInt(128))),
        ("topic", obj(vec![("value", s("今日の話題"))])),
        ("purpose", obj(vec![("value", s("会社全体のお知らせ"))])),
    ])
}

#[test]
fn info_json_keeps_the_typescript_shape() {
    let value = channel_info_value(&sample_channel(), OutputFormat::Json);
    assert_eq!(text(&value, "id"), Some("C0123456789"));
    assert_eq!(field(&value, "is_private").and_then(|v| v.as_bool()), Some(false));
    assert_eq!(field(&value, "is_archived").and_then(|v| v.as_bool()), Some(false));
    assert_eq!(field(&value, "created").and_then(|v| v.as_i64()), Some(1_554_076_800));
    assert_eq!(field(&value, "num_members").and_then(|v| v.as_u64()), Some(128));
    assert_eq!(text(&value, "topic"), Some("今日の話題"));
}

#[test]
fn info_omits_num_members_and_nulls_unset_text() {
    let value = channel_info_value(
        &obj(vec![("id", s("C0123456789")), ("name", s("general")), ("topic", obj(vec![("value", s(""))]))]),
        OutputFormat::Json,
    );
    assert!(field(&value, "num_members").is_none());
    assert!(field(&value, "created").is_none());
    assert!(matches!(field(&value, "topic"), Some(Json::Null)));
    assert!(matches!(field(&value, "purpose"), Some(Json::Null)));
}

#[test]
fn info_table_shows_a_fixed_utc_date() {
    let value = channel_info_value(&sample_channel(), OutputFormat::Table);
    assert_eq!(text(&value, "created"), Some("2019-04-01"));
}

#[test]
fn info_sanitizes_values_from_the_api() {
    let value = channel_info_value(
        &obj(vec![
            ("id", s("C0123456789")),
            ("name", s("\u{1b}[31mgeneral")),
            ("purpose", obj(vec![("value", s("\u{1b}]0;pwned\u{7}ok"))])),
        ]),
        OutputFormat::Json,
    );
    assert_eq!(text(&value, "name"), Some("general"));
    assert_eq!(text(&value, "purpose"), Some("ok"));
}

#[test]
fn channel_types_are_mapped_and_unknown_values_rejected() {
    assert_eq!(channel_types("public").unwrap(), "public_channel");
    assert_eq!(channel_types("private").unwrap(), "private_channel");
    assert_eq!(channel_types("im").unwrap(), "im");
    assert_eq!(channel_types("mpim").unwrap(), "mpim");
    assert_eq!(channel_types("all").unwrap(), "public_channel,private_channel,mpim,im");
    let err = match channel_types("foo") {
        Err(e) => e,
        Ok(_) => panic!("foo must be rejected"),
    };
    assert_eq!(err.message(), "Invalid type 'foo'. Must be one of: public, private, im, mpim, all");
}

#[test]
fn maps_channel_fields_and_kinds() {
    let mapped = map_channel(&obj(vec![
        ("id", s("C0123456789")),
        ("name", s("general")),
        ("is_channel", Json::Bool(true)),
        ("is_private", Json::Bool(false)),
        ("num_members", Json::Number(JsonNumber::UInt(128))),
        ("created", Json::Number(JsonNumber::Int(1_554_076_800))),
        ("purpose", obj(vec![("value", s("会社全体のお知らせ"))])),
    ]));
    assert_eq!(text(&mapped, "id"), Some("C0123456789"));
    assert_eq!(text(&mapped, "type"), Some("public"));
    assert_eq!(field(&mapped, "members").and_then(|v| v.as_u64()), Some(128));
    assert_eq!(text(&mapped, "purpose"), Some("会社全体のお知らせ"));
    assert_eq!(text(&mapped, "created"), Some("2019-04-01T00:00:00.000Z"));

    assert_eq!(text(&map_channel(&obj(vec![("is_group", Json::Bool(true))])), "type"), Some("private"));
    assert_eq!(text(&map_channel(&obj(vec![("is_im", Json::Bool(true))])), "type"), Some("im"));
    assert_eq!(text(&map_channel(&obj(vec![("is_mpim", Json::Bool(true))])), "type"), Some("mpim"));
    let unknown = map_channel(&obj(vec![]));
    assert_eq!(text(&unknown, "type"), Some("unknown"));
    assert_eq!(text(&unknown, "name"), Some("unnamed"));
    assert_eq!(field(&unknown, "members").and_then(|v| v.as_u64()), Some(0));
}

#[test]
fn created_keeps_the_time_of_day_and_survives_out_of_range_values() {
    assert_eq!(format_created(Some(1_554_076_845)), "2019-04-01T00:00:45.000Z");
    assert_eq!(format_created(Some(i64::MAX)), INVALID_TIMESTAMP);
    assert_eq!(format_created(None), INVALID_TIMESTAMP);
    assert_eq!(format_created_date(Some(1_554_076_845)), "2019-04-01");
}

#[test]
fn unix_seconds_render_in_utc_or_report_out_of_range() {
    assert_eq!(format_unix_date(i64::MAX), INVALID_TIMESTAMP);
    assert_eq!(format_unix_date(1_554_076_800), "2019-04-01");
    assert_eq!(format_unix_rfc3339(1554076800), "2019-04-01T00:00:00.000Z");
    assert_eq!(format_unix_rfc3339(i64::MIN), INVALID_TIMESTAMP);
}

#[test]
fn terminal_escapes_are_stripped_from_values() {
    assert_eq!(sanitize_terminal_text("\u{1b}]0;pwned\u{7}general"), "general");
    assert_eq!(sanitize_terminal_text("\u{1b}[31mred\u{1b}[0m"), "red");
    assert_eq!(sanitize_terminal_text("a\u{7}b\u{7f}c\u{9b}d"), "abcd");
    assert_eq!(sanitize_terminal_text("keep\tthis\nline"), "keep\tthis\nline");
    assert_eq!(sanitize_terminal_text("🎉 done"), "🎉 done");
}

#[test]
fn success_message_channel_display_never_doubles_the_hash() {
    assert_eq!(format_channel_display("general"), "#general");
    assert_eq!(format_channel_display("#general"), "#general");
    assert_eq!(format_channel_display("C0123456789"), "C0123456789");
    assert_eq!(format_channel_display("\u{1b}[31mgeneral"), "#general");
}

#[test]
fn dry_run_silences_the_single_line_writer_too() {
    assert!(success_line(&global_with(OutputFormat::Table, true), "✓ done").is_none());
}

#[test]
fn success_line_is_the_sanitized_message_when_the_request_went_out() {
    assert_eq!(success_line(&global_with(OutputFormat::Table, false), "✓ do\nne").as_deref(), Some("✓ do ne"));
}

#[test]
fn channel_ids_need_eight_characters_after_the_prefix() {
    assert!(is_channel_id("C12345678"));
    assert!(is_channel_id("D0123456789"));
    assert!(is_channel_id("G0123456789"));
    assert!(!is_channel_id("C1234567"), "7 characters is too short");
    assert!(!is_channel_id("U0123456789"), "U is a user, not a channel");
    assert!(!is_channel_id("general"));
    assert!(!is_channel_id("C012345678a"), "lowercase is not allowed");
    assert!(!is_channel_id(""));
}

#[test]
fn common_message_timestamps_need_ten_dot_six_digits() {
    assert!(is_message_ts("1700000000.000100"));
    assert!(!is_message_ts("1700000000.0001"));
    assert!(!is_message_ts("170000000.000100"));
    assert!(!is_message_ts("1700000000"));
    assert!(!is_message_ts("abcdefghij.000100"));
}

#[test]
fn channel_labels_never_double_the_hash_or_decorate_ids() {
    assert_eq!(channel_label("general"), "#general");
    assert_eq!(channel_label("#general"), "#general");
    assert_eq!(channel_label("C0123456789"), "C0123456789");
    assert_eq!(channel_label("gen\u{1b}[31meral"), "#general");
}

#[test]
fn channel_lookup_matches_name_normalized_and_case() {
    let channels = vec![
        obj(vec![("id", s("C0123456789")), ("name", s("General")), ("name_normalized", s("general"))]),
        obj(vec![("id", s("C9999999999")), ("name", s("random"))]),
    ];
    assert_eq!(find_channel_id(&channels, "General").as_deref(), Some("C0123456789"));
    assert_eq!(find_channel_id(&channels, "general").as_deref(), Some("C0123456789"));
    assert_eq!(find_channel_id(&channels, "#random").as_deref(), Some("C9999999999"));
    assert_eq!(find_channel_id(&channels, "nope"), None);
}

#[test]
fn not_found_suggests_similar_channels() {
    let channels = vec![obj(vec![("id", s("C0123456789")), ("name", s("general-random"))])];
    let message = not_found_error("general", &channels).message();
    assert!(message.contains("Did you mean one of these? general-random"), "{message}");
    let message = not_found_error("nope", &channels).message();
    assert!(message.contains("Make sure you are a member"), "{message}");
}

#[test]
fn missing_scope_drops_only_the_blocked_channel_types() {
    let types = channel_lookup_types();
    let blocked = SlackCliError::Api {
        status: 200,
        code: MISSING_SCOPE_CODE.into(),
        needed: vec!["groups:read".into(), "mpim:read".into()],
    };
    assert_eq!(fallback_lookup_types(&blocked, &types), Some(vec!["public_channel".to_string(), "im".to_string()]));
    let unrelated = SlackCliError::Api {
        status: 200,
        code: MISSING_SCOPE_CODE.into(),
        needed: vec!["chat:write".into()],
    };
    assert_eq!(fallback_lookup_types(&unrelated, &types), None);
    let everything = SlackCliError::Api {
        status: 200,
        code: MISSING_SCOPE_CODE.into(),
        needed: vec!["channels:read".into(), "groups:read".into(), "im:read".into(), "mpim:read".into()],
    };
    assert_eq!(fallback_lookup_types(&everything, &types), None);
    let other = SlackCliError::Api { status: 200, code: CHANNEL_NOT_FOUND_CODE.into(), needed: vec![] };
    assert_eq!(fallback_lookup_types(&other, &types), None);
}

#[test]
fn truncation_uses_display_width_and_never_splits_a_character() {
    assert_eq!(truncate_display("hello", 10, "..."), "hello");
    assert_eq!(truncate_display("hello world", 8, "..."), "hello...");
    assert_eq!(truncate_display("日本語テスト", 8, "..."), "日本...");
    assert_eq!(truncate_display("🎉🎉🎉🎉", 5, ""), "🎉🎉");
    assert_eq!(display_width("日本語"), 6);
}

#[test]
fn user_ids_accept_both_u_and_w_prefixes() {
    assert!(is_user_id("U0123456789"));
    assert!(is_user_id("W0123456789"));
    assert!(!is_user_id("C0123456789"));
    assert!(!is_user_id("alice"));
}

#[test]
fn truncated_text_never_exceeds_the_column_budget() {
    for (value, max) in [("日本語テスト", 8usize), ("hello world", 8), ("🎉🎉🎉🎉", 5), ("abc", 3), ("日本語", 3)] {
        let out = truncate_display(value, max, "...");
        assert!(display_width(&out) <= max, "{out} is wider than {max}");
    }
    assert_eq!(truncate_display("abc", 3, "..."), "abc");
}

#[test]
fn sanitising_twice_changes_nothing() {
    for raw in ["\u{1b}]0;pwned\u{7}general", "\u{1b}[31mred\u{1b}[0m", "a\u{7}b\u{7f}c\u{9b}d", "keep\tthis\nline", "\u{1b}[", "plain"] {
        let once = sanitize_terminal_text(raw);
        assert_eq!(sanitize_terminal_text(&once), once);
    }
}

#[test]
fn labelling_a_label_changes_nothing() {
    for raw in ["general", "#general", "C0123456789", "gen\u{1b}[31meral", "two\nlines", ""] {
        let once = channel_label(raw);
        assert_eq!(channel_label(&once), once);
    }
}

#[test]
fn widths_add_up() {
    assert_eq!(display_width(""), 0);
    assert_eq!(display_width("日本語"), 6);
    assert_eq!(display_width(&format!("{}{}", "ab", "日本")), display_width("ab") + display_width("日本"));
}

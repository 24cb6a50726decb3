use slack_cli::cli::channels::{list_shows_empty_message, map_channel, MSG_NO_CHANNELS};
use slack_cli::cli::edit::{message_result, validate_blocks_options, ERR_BOTH_BLOCKS, ERR_INVALID_BLOCKS_JSON};
use slack_cli::cli::history::{build_output, message_value, NO_TEXT as HISTORY_NO_TEXT};
use slack_cli::cli::invite::invite_warnings;
use slack_cli::cli::others::{
    member_entry, scheduled_cancel_report, string_field, whoami_value, MSG_NO_SCHEDULED,
};
use slack_cli::cli::pin::{format_created as pin_format_created, pin_row, pins_value, UNKNOWN_ITEM_TYPE};
use slack_cli::cli::reminder::{
    created_reminder, map_reminder, mutation_report, MSG_DELETED, STATUS_COMPLETED, STATUS_PENDING,
};
use slack_cli::cli::search::{search_output, MSG_NO_MESSAGES, NO_TEXT, UNKNOWN_CHANNEL, UNKNOWN_USER};
use slack_cli::cli::send::{format_iso8601_millis, validate_blocks, SendCommand, ERR_BOTH_BLOCKS as SEND_ERR_BOTH_BLOCKS, ERR_INVALID_BLOCKS};
use slack_cli::cli::unread::{build_single_output, unread_message_row};
use slack_cli::cli::upload::file_not_found;
use slack_cli::cli::usergroups::{find_usergroup_id_by_handle, list_value as groups_list_value, member_ids, member_value};
use slack_cli::cli::users::{
    find_user_id_by_name, list_value, presence_value, real_name, user_detail_value, user_of,
};
use slack_cli::cli::{success_output, GlobalOpts, OutputFormat, SuccessOutput};
use slack_cli::common::INVALID_TIMESTAMP;
use slack_cli::error::{SlackCliError, CODE_FILE};
use slack_cli::json::{Json, JsonNumber};
use slack_cli::sanitize::sanitize_value;

fn s(v: &str) -> Json {
    Json::Str(v.to_string())
}

fn num(v: i64) -> Json {
    Json::Number(JsonNumber::Int(v))
}

fn obj(fields: Vec<(&str, Json)>) -> Json {
    Json::Object(fields.into_iter().map(|(k, v)| (k.to_string(), v)).collect())
}

fn field<'a>(v: &'a Json, key: &str) -> Option<&'a Json> {
    v.get(key)
}

fn text<'a>(v: &'a Json, key: &str) -> Option<&'a str> {
    v.get(key).and_then(|x| x.as_str()).map(|x| x.as_str())
}

fn items(v: &Json) -> &Vec<Json> {
    v.as_array().expect("an array")
}

fn err_text<T>(r: Result<T, SlackCliError>) -> String {
    match r {
        Ok(_) => panic!("expected an error"),
        Err(e) => e.message(),
    }
}

fn alice() -> Json {
    obj(vec![
        ("id", s("U012ABC")),
        ("name", s("alice")),
        ("real_name", s("Alice Anderson")),
        ("is_bot", Json::Bool(false)),
        ("deleted", Json::Bool(false)),
        ("is_admin", Json::Bool(true)),
        ("tz", s("Asia/Tokyo")),
        ("tz_label", s("Japan Standard Time")),
        (
            "profile",
            obj(vec![
                ("email", s("alice@example.com")),
                ("display_name", s("alice")),
                ("title", s("Engineer")),
                ("status_emoji", s(":palm_tree:")),
                ("status_text", s("on leave")),
            ]),
        ),
        ("color", s("9f69e7")),
    ])
}

#[test]
fn users_list_projects_columns_for_table_and_keeps_raw_fields_otherwise() {
    let table = list_value(vec![alice()], OutputFormat::Table);
    let row = &items(&table)[0];
    assert_eq!(text(row, "email"), Some("alice@example.com"));
    assert_eq!(text(row, "is_bot"), Some("No"));
    assert_eq!(text(row, "deleted"), Some("No"));
    assert!(field(row, "color").is_none(), "table must not carry raw fields");

    let raw = list_value(vec![alice()], OutputFormat::Json);
    assert_eq!(text(&items(&raw)[0], "color"), Some("9f69e7"));
}

#[test]
fn user_detail_renders_labelled_rows_for_table_only() {
    let detail = user_detail_value(alice(), OutputFormat::Table);
    let rows: Vec<(&str, &str)> = items(&detail)
        .iter()
        .map(|row| (text(row, "field").unwrap(), text(row, "value").unwrap()))
        .collect();

    assert_eq!(rows[0], ("ID", "U012ABC"));
    assert!(rows.contains(&("Timezone", "Asia/Tokyo (Japan Standard Time)")));
    assert!(rows.contains(&("Status", ":palm_tree: on leave")));
    assert!(rows.contains(&("Admin", "Yes")));
    assert!(rows.contains(&("Bot", "No")));

    let raw = user_detail_value(alice(), OutputFormat::Json);
    assert_eq!(format!("{:?}", raw), format!("{:?}", alice()));
}

#[test]
fn real_name_falls_back_to_the_profile() {
    let user = obj(vec![("id", s("U1")), ("profile", obj(vec![("real_name", s("Bob Brown"))]))]);
    assert_eq!(real_name(&user), "Bob Brown");
    assert_eq!(real_name(&obj(vec![("id", s("U1"))])), "");
}

#[test]
fn presence_value_carries_both_the_user_and_the_presence() {
    let value = presence_value("U1", s("away"));
    assert_eq!(text(&value, "user"), Some("U1"));
    assert_eq!(text(&value, "presence"), Some("away"));
}

#[test]
fn user_of_prefers_the_user_field_and_falls_back_to_the_answer() {
    let answer = obj(vec![("ok", Json::Bool(true)), ("user", obj(vec![("id", s("U1"))]))]);
    assert_eq!(text(&user_of(answer), "id"), Some("U1"));
    let bare = obj(vec![("id", s("U2"))]);
    assert_eq!(text(&user_of(bare), "id"), Some("U2"));
}

#[test]
fn usernames_are_matched_without_case_and_without_the_sigil() {
    let users = vec![obj(vec![("id", s("U9")), ("name", s("Alice"))])];
    assert_eq!(find_user_id_by_name(&users, "@ALICE").unwrap(), "U9");
    let others = vec![obj(vec![("id", s("U9")), ("name", s("bob"))])];
    assert_eq!(err_text(find_user_id_by_name(&others, "@alice")), "User 'alice' not found");
}

fn engineers() -> Json {
    obj(vec![
        ("id", s("S012ABC")),
        ("handle", s("engineers")),
        ("name", s("Engineering Team")),
        ("description", s("builders")),
        ("user_count", num(2)),
        ("date_delete", num(0)),
    ])
}

#[test]
fn usergroups_list_projects_columns_for_table_and_keeps_raw_fields_otherwise() {
    let groups = || vec![engineers(), obj(vec![("id", s("S2")), ("handle", s("design"))])];

    let table = groups_list_value(groups(), OutputFormat::Table);
    let rows = items(&table);
    assert_eq!(field(&rows[0], "user_count").and_then(|v| v.as_i64()), Some(2));
    assert_eq!(text(&rows[0], "description"), Some("builders"));
    assert!(field(&rows[0], "date_delete").is_none());
    assert_eq!(text(&rows[1], "user_count"), Some(""));

    let raw = groups_list_value(groups(), OutputFormat::Json);
    assert_eq!(field(&items(&raw)[0], "date_delete").and_then(|v| v.as_i64()), Some(0));
}

#[test]
fn usergroup_members_and_handles() {
    let response = obj(vec![("users", Json::Array(vec![s("U1"), num(3), s("U2")]))]);
    assert_eq!(member_ids(&response), vec!["U1".to_string(), "U2".to_string()]);

    let user = obj(vec![("name", s("alice")), ("profile", obj(vec![("real_name", s("Alice A"))]))]);
    let row = member_value("U1", Some(&user));
    assert_eq!(text(&row, "name"), Some("alice"));
    assert_eq!(text(&row, "real_name"), Some("Alice A"));
    let missing = member_value("U2", None);
    assert_eq!(text(&missing, "name"), Some(""));

    let groups = vec![engineers()];
    assert_eq!(find_usergroup_id_by_handle(&groups, "@Engineers").unwrap(), "S012ABC");
    assert_eq!(err_text(find_usergroup_id_by_handle(&groups, "@ops")), "Usergroup '@ops' not found");
}

#[test]
fn created_is_iso8601_with_milliseconds() {
    assert_eq!(pin_format_created(Some(&num(1_755_403_953))), "2025-08-17T04:12:33.000Z");
    assert_eq!(pin_format_created(Some(&num(0))), "");
    assert_eq!(pin_format_created(None), "");
    assert_eq!(pin_format_created(Some(&num(i64::MAX))), INVALID_TIMESTAMP);
}

#[test]
fn rows_fall_back_to_unknown_and_empty_strings() {
    let row = pin_row(&obj(vec![("created", num(1_755_403_953))]));
    assert_eq!(text(&row, "type"), Some(UNKNOWN_ITEM_TYPE));
    assert_eq!(text(&row, "ts"), Some(""));
    assert_eq!(text(&row, "text"), Some(""));

    let row = pin_row(&obj(vec![
        ("type", s("message")),
        ("created_by", s("U1")),
        ("message", obj(vec![("ts", s("1.1")), ("text", s("\u{1b}[31mデプロイ完了"))])),
    ]));
    assert_eq!(text(&row, "type"), Some("message"));
    assert_eq!(text(&row, "created_by"), Some("U1"));
    assert_eq!(text(&row, "text"), Some("デプロイ完了"));
}

#[test]
fn pin_listing_keeps_items_for_json_and_rows_otherwise() {
    let item = || obj(vec![("type", s("message")), ("message", obj(vec![("text", s("\u{1b}[31mhi"))]))]);
    let json = pins_value(vec![item()], OutputFormat::Json);
    let first = &items(&json)[0];
    assert_eq!(text(field(first, "message").unwrap(), "text"), Some("hi"));
    let table = pins_value(vec![item()], OutputFormat::Table);
    assert_eq!(text(&items(&table)[0], "text"), Some("hi"));
}

#[test]
fn out_of_range_timestamps_do_not_panic() {
    let row = map_reminder(&obj(vec![("id", s("Rm1")), ("text", s("x"))]));
    assert_eq!(text(&row, "time_formatted"), Some(INVALID_TIMESTAMP));
    let far = map_reminder(&obj(vec![("time", num(i64::MAX))]));
    assert_eq!(text(&far, "time_formatted"), Some(INVALID_TIMESTAMP));
}

#[test]
fn reminder_rows_map_status_and_format_the_time() {
    let pending = map_reminder(&obj(vec![
        ("id", s("Rm1")),
        ("text", s("\u{1b}[31mミーティング")),
        ("time", num(1772344800)),
        ("complete_ts", num(0)),
        ("recurring", Json::Bool(false)),
    ]));
    assert_eq!(text(&pending, "status"), Some(STATUS_PENDING));
    assert_eq!(text(&pending, "text"), Some("ミーティング"));
    assert_eq!(field(&pending, "time").and_then(|v| v.as_i64()), Some(1772344800));
    assert_eq!(text(&pending, "time_formatted"), Some("2026-03-01T06:00:00.000Z"));

    let done = map_reminder(&obj(vec![
        ("id", s("Rm2")),
        ("time", num(1772344800)),
        ("complete_ts", num(1772345000)),
        ("recurring", Json::Bool(true)),
    ]));
    assert_eq!(text(&done, "status"), Some(STATUS_COMPLETED));
    assert_eq!(field(&done, "recurring").and_then(|v| v.as_bool()), Some(true));
}

#[test]
fn created_reminders_report_what_slack_returned_or_what_was_sent() {
    let answer = obj(vec![(
        "reminder",
        obj(vec![("id", s("Rm1")), ("text", s("ミーティング")), ("time", num(1772344800))]),
    )]);
    let created = created_reminder(&answer, "べつのテキスト", 1);
    assert_eq!(created.message, "✓ Reminder created: \"ミーティング\" at 2026-03-01T06:00:00.000Z");
    assert_eq!(text(&created.value, "id"), Some("Rm1"));

    let dry = created_reminder(&obj(vec![("ok", Json::Bool(true)), ("dry_run", Json::Bool(true))]), "standup", 1772344800);
    assert_eq!(dry.message, "✓ Reminder created: \"standup\" at 2026-03-01T06:00:00.000Z");
    assert_eq!(text(&dry.value, "text"), Some("standup"));

    let (value, message) = mutation_report(MSG_DELETED, "Rm1");
    assert_eq!(message, "✓ Reminder deleted: Rm1");
    assert_eq!(text(&value, "reminder"), Some("Rm1"));
}

#[test]
fn empty_results_stay_json_but_keep_the_table_message() {
    assert!(list_shows_empty_message(0, OutputFormat::Table));
    assert!(!list_shows_empty_message(0, OutputFormat::Json));
    assert_eq!(MSG_NO_SCHEDULED, "No scheduled messages found");
}

#[test]
fn json_output_keeps_the_raw_api_shape() {
    let message = obj(vec![
        ("id", s("Q1234ABCD")),
        ("channel_id", s("C012345678")),
        ("post_at", num(1769936400)),
        ("date_created", num(1769850000)),
        ("text", s("hello")),
    ]);
    let sanitized = sanitize_value(&message);
    assert_eq!(field(&sanitized, "post_at").and_then(|v| v.as_i64()), Some(1769936400));
    assert_eq!(text(&sanitized, "id"), Some("Q1234ABCD"));

    let (value, note) = scheduled_cancel_report("C012345678", "Q1");
    assert_eq!(note, "✓ Scheduled message Q1 cancelled");
    assert_eq!(text(&value, "scheduled_message_id"), Some("Q1"));
}

#[test]
fn values_are_sanitized_before_they_reach_the_output_layer() {
    let user = obj(vec![("name", s("dai\u{1b}[31mchi")), ("real_name", s("堀越\n大地"))]);
    assert_eq!(string_field(&user, "name"), "daichi");
    assert_eq!(string_field(&user, "real_name"), "堀越 大地");
    assert_eq!(string_field(&user, "missing"), "");

    let entry = member_entry("U1\n", &Json::Null);
    assert_eq!(text(&entry, "id"), Some("U1 "));
    assert_eq!(text(&entry, "name"), Some(""));
}

#[test]
fn whoami_keeps_only_the_identity_fields() {
    let answer = obj(vec![
        ("ok", Json::Bool(true)),
        ("user", s("alice")),
        ("user_id", s("U123")),
        ("team", s("Acme")),
        ("team_id", s("T1")),
        ("url", s("https://acme.slack.com/")),
        ("bot_id", s("B1")),
    ]);
    let value = whoami_value(&answer);
    assert_eq!(text(&value, "user_id"), Some("U123"));
    assert!(field(&value, "bot_id").is_none());
    let sparse = whoami_value(&obj(vec![("user", s("alice"))]));
    assert!(matches!(field(&sparse, "team"), Some(Json::Null)));
}

#[test]
fn json_output_keeps_the_typescript_contract_and_tables_get_flat_rows() {
    let users = vec![("U1".to_string(), "alice".to_string())];
    let message = || message_value(
        &obj(vec![("ts", s("1700000000.000100")), ("user", s("U1")), ("text", s("hi"))]),
        "2023-11-14 22:13:20".to_string(),
        &users,
        &Vec::new(),
    );

    let json_value = build_output("general", vec![message()], OutputFormat::Json);
    assert_eq!(text(&json_value, "channel"), Some("general"));
    assert_eq!(field(&json_value, "total").and_then(|v| v.as_u64()), Some(1));
    let first = &items(field(&json_value, "messages").unwrap())[0];
    assert_eq!(text(first, "user_id"), Some("U1"));

    let table_value = build_output("general", vec![message()], OutputFormat::Table);
    let rows = items(&table_value);
    assert_eq!(text(&rows[0], "user"), Some("alice"));
    assert_eq!(text(&rows[0], "timestamp"), Some("2023-11-14 22:13:20"));
    assert!(field(&rows[0], "user_id").is_none());
}

#[test]
fn empty_text_and_optional_keys_follow_the_spec() {
    let value = message_value(
        &obj(vec![
            ("ts", s("1700000000.000100")),
            ("bot_id", s("B1")),
            ("thread_ts", s("1700000000.000100")),
            ("reply_count", num(3)),
            (
                "files",
                Json::Array(vec![obj(vec![
                    ("id", s("F1")),
                    ("name", s("report.pdf")),
                    ("url_private", s("https://files/x")),
                ])]),
            ),
        ]),
        "2023-11-14 22:13:20".to_string(),
        &Vec::new(),
        &Vec::new(),
    );

    assert_eq!(text(&value, "text"), Some(HISTORY_NO_TEXT));
    assert_eq!(text(&value, "user"), Some("Bot"));
    assert!(field(&value, "user_id").is_none());
    assert_eq!(field(&value, "reply_count").and_then(|v| v.as_i64()), Some(3));
    let files = items(field(&value, "files").unwrap());
    assert_eq!(text(&files[0], "url"), Some("https://files/x"));

    let rows = build_output("general", vec![value], OutputFormat::Table);
    assert_eq!(text(&items(&rows)[0], "files"), Some("report.pdf"));
}

#[test]
fn permalinks_are_attached_by_timestamp() {
    let links = vec![("1.000001".to_string(), "https://x/p1".to_string())];
    let value = message_value(&obj(vec![("ts", s("1.000001"))]), String::new(), &Vec::new(), &links);
    assert_eq!(text(&value, "permalink"), Some("https://x/p1"));
}

fn sample_response() -> Json {
    obj(vec![
        ("ok", Json::Bool(true)),
        ("query", s("deploy")),
        (
            "messages",
            obj(vec![
                (
                    "matches",
                    Json::Array(vec![
                        obj(vec![
                            ("channel", obj(vec![("id", s("C123")), ("name", s("dev-acejob"))])),
                            ("username", s("alice")),
                            ("user", s("U123ABC")),
                            ("ts", s("1755403953.123456")),
                            ("text", s("デプロイ完了しました")),
                            ("permalink", s("https://example.slack.com/archives/C123/p1755403953")),
                        ]),
                        obj(vec![
                            ("channel", obj(vec![("id", s("C999"))])),
                            ("user", s("U345DEF")),
                        ]),
                    ]),
                ),
                (
                    "pagination",
                    obj(vec![("total_count", num(37)), ("page", num(2)), ("page_count", num(4))]),
                ),
            ]),
        ),
    ])
}

fn stamps() -> Vec<String> {
    vec!["2025-08-17 04:12:33".to_string(), String::new()]
}

#[test]
fn transform_matches_the_documented_json_shape() {
    let result = search_output(&sample_response(), "fallback", &stamps(), OutputFormat::Json).value;
    assert_eq!(text(&result, "query"), Some("deploy"));
    assert_eq!(field(&result, "totalCount").and_then(|v| v.as_u64()), Some(37));
    assert_eq!(field(&result, "page").and_then(|v| v.as_u64()), Some(2));
    assert_eq!(field(&result, "pageCount").and_then(|v| v.as_u64()), Some(4));

    let matches = items(field(&result, "matches").unwrap());
    let first = &matches[0];
    assert_eq!(text(first, "channel"), Some("dev-acejob"));
    assert_eq!(text(first, "username"), Some("alice"));
    assert_eq!(text(first, "timestamp"), Some("2025-08-17 04:12:33"));
    assert_eq!(text(first, "text"), Some("デプロイ完了しました"));
    assert_eq!(text(first, "permalink"), Some("https://example.slack.com/archives/C123/p1755403953"));

    let second = &matches[1];
    assert_eq!(text(second, "channel"), Some("C999"));
    assert_eq!(text(second, "username"), Some("U345DEF"));
    assert_eq!(text(second, "timestamp"), Some(""));
    assert_eq!(text(second, "text"), Some(NO_TEXT));
    assert_eq!(text(second, "permalink"), Some(""));
}

#[test]
fn transform_falls_back_when_the_response_is_empty() {
    let result = search_output(&obj(vec![("ok", Json::Bool(true))]), "release notes", &Vec::new(), OutputFormat::Json).value;
    assert_eq!(text(&result, "query"), Some("release notes"));
    assert_eq!(field(&result, "totalCount").and_then(|v| v.as_u64()), Some(0));
    assert_eq!(field(&result, "page").and_then(|v| v.as_u64()), Some(1));
    assert_eq!(field(&result, "pageCount").and_then(|v| v.as_u64()), Some(0));
    assert!(items(field(&result, "matches").unwrap()).is_empty());

    let unknown = search_output(
        &obj(vec![("messages", obj(vec![("matches", Json::Array(vec![obj(vec![("channel", obj(vec![]))])]))]))]),
        "q",
        &Vec::new(),
        OutputFormat::Json,
    )
    .value;
    let row = &items(field(&unknown, "matches").unwrap())[0];
    assert_eq!(text(row, "channel"), Some(UNKNOWN_CHANNEL));
    assert_eq!(text(row, "username"), Some(UNKNOWN_USER));
}

#[test]
fn output_values_are_stripped_of_terminal_escapes() {
    let response = obj(vec![(
        "messages",
        obj(vec![(
            "matches",
            Json::Array(vec![obj(vec![
                ("text", s("line1\u{1b}[31mred\u{7}\nline2")),
                ("username", s("\u{1b}]0;title\u{7}alice")),
                ("channel", obj(vec![("name", s("general"))])),
            ])]),
        )]),
    )]);
    let result = search_output(&response, "q", &Vec::new(), OutputFormat::Json).value;
    let row = &items(field(&result, "matches").unwrap())[0];
    assert_eq!(text(row, "text"), Some("line1red\nline2"));
    assert_eq!(text(row, "username"), Some("alice"));
}

#[test]
fn json_output_keeps_the_full_envelope() {
    let out = search_output(&sample_response(), "q", &stamps(), OutputFormat::Json);
    assert_eq!(field(&out.value, "totalCount").and_then(|v| v.as_u64()), Some(37));
    assert_eq!(items(field(&out.value, "matches").unwrap()).len(), 2);
    assert!(out.notes.is_empty());
}

#[test]
fn row_formats_print_matches_and_send_the_summary_to_stderr() {
    let out = search_output(&sample_response(), "q", &stamps(), OutputFormat::Table);
    let rows = items(&out.value);
    assert_eq!(text(&rows[0], "channel"), Some("dev-acejob"));
    assert_eq!(text(&rows[0], "username"), Some("alice"));
    assert!(field(&out.value, "totalCount").is_none());
    assert!(out.notes.contains(&"Search results for \"deploy\" (37 matches)".to_string()));
    assert!(out.notes.contains(&"Page 2/4".to_string()));
    assert!(out.notes.contains(&"Displayed 2 of 37 match(es)".to_string()));

    let tsv = search_output(&sample_response(), "q", &stamps(), OutputFormat::Tsv);
    assert_eq!(items(&tsv.value).len(), 2);
}

#[test]
fn zero_matches_still_produce_structured_output() {
    let response = obj(vec![("query", s("nope")), ("messages", obj(vec![("matches", Json::Array(vec![]))]))]);
    let json = search_output(&response, "nope", &Vec::new(), OutputFormat::Json);
    assert!(items(field(&json.value, "matches").unwrap()).is_empty());

    let table = search_output(&response, "nope", &Vec::new(), OutputFormat::Table);
    assert!(table.notes.contains(&MSG_NO_MESSAGES.to_string()));
    assert!(!table.notes.iter().any(|n| n.contains("Displayed")));
}

fn global_with(format: OutputFormat, dry_run: bool) -> GlobalOpts {
    let mut g = GlobalOpts::defaults();
    g.format = format;
    g.dry_run = dry_run;
    g
}

#[test]
fn success_message_is_printed_when_the_request_really_went_out() {
    match success_output(&global_with(OutputFormat::Table, false), "✓ done") {
        SuccessOutput::Line(l) => assert!(l.contains("✓ done")),
        _ => panic!("expected the success line"),
    }
}

#[test]
fn dry_run_never_claims_success_on_the_table_output() {
    assert!(matches!(success_output(&global_with(OutputFormat::Table, true), "✓ done"), SuccessOutput::Nothing));
}

#[test]
fn dry_run_marks_the_machine_readable_output_instead_of_faking_a_result() {
    assert!(matches!(
        success_output(&global_with(OutputFormat::Json, true), "✓ done"),
        SuccessOutput::DryRunEnvelope
    ));
    assert!(matches!(success_output(&global_with(OutputFormat::Json, false), "✓ done"), SuccessOutput::Data));
}

#[test]
fn empty_result_is_text_for_table_and_json_for_machines() {
    assert!(list_shows_empty_message(0, OutputFormat::Table));
    assert_eq!(MSG_NO_CHANNELS, "No channels found");
    assert!(!list_shows_empty_message(0, OutputFormat::Json));
}

#[test]
fn non_empty_result_is_rendered_in_the_requested_format() {
    let row = map_channel(&obj(vec![("id", s("C0123456789")), ("name", s("general"))]));
    assert_eq!(text(&row, "name"), Some("general"));
    assert!(!list_shows_empty_message(1, OutputFormat::Table));
}

#[test]
fn blocks_options_are_exclusive_and_must_be_a_json_array() {
    assert_eq!(err_text(validate_blocks_options(Some("[]"), Some("b.json"))), ERR_BOTH_BLOCKS);
    for bad in ["{}", "not json", "\"text\"", "3"] {
        assert_eq!(err_text(validate_blocks_options(Some(bad), None)), ERR_INVALID_BLOCKS_JSON, "{bad:?}");
    }
    assert_eq!(
        validate_blocks_options(Some("[{\"type\":\"divider\"}]"), None).unwrap(),
        Some("[{\"type\":\"divider\"}]".to_string())
    );
    assert_eq!(validate_blocks_options(None, None).unwrap(), None);
}

#[test]
fn non_table_formats_emit_the_structured_result() {
    let response = obj(vec![("ok", Json::Bool(true)), ("channel", s("C012345678")), ("ts", s("1700000000.000100"))]);
    let value = message_result(&response, "C012345678", "1700000000.000100");
    assert_eq!(text(&value, "channel"), Some("C012345678"));
    assert_eq!(text(&value, "ts"), Some("1700000000.000100"));

    let fallback = message_result(&obj(vec![("ok", Json::Bool(true)), ("dry_run", Json::Bool(true))]), "C1", "1.2");
    assert_eq!(text(&fallback, "channel"), Some("C1"));
    assert_eq!(text(&fallback, "ts"), Some("1.2"));
}

#[test]
fn partial_failures_are_reported_per_user() {
    let response = obj(vec![
        ("ok", Json::Bool(true)),
        (
            "errors",
            Json::Array(vec![
                obj(vec![("user", s("U0123456789")), ("ok", Json::Bool(false)), ("error", s("cant_invite"))]),
                obj(vec![("user", s("U9876543210")), ("ok", Json::Bool(true))]),
            ]),
        ),
    ]);
    let written = invite_warnings(&response);
    assert_eq!(written.len(), 1);
    assert!(written[0].contains("U0123456789"));
    assert!(written[0].contains("cant_invite"));
    assert!(invite_warnings(&obj(vec![("ok", Json::Bool(true))])).is_empty());
}

#[test]
fn count_only_never_overrides_the_requested_format() {
    let messages = || {
        vec![obj(vec![
            ("timestamp", s("2023-11-14 22:13:20")),
            ("author", s("alice")),
            ("text", s("hi")),
        ])]
    };
    let counted = build_single_output("#general", "C1", 12, messages(), true, OutputFormat::Json);
    assert_eq!(field(&counted, "unreadCount").and_then(|v| v.as_u64()), Some(12));
    assert!(field(&counted, "messages").is_none());
    assert!(matches!(counted, Json::Object(_)));

    let full = build_single_output("#general", "C1", 12, messages(), false, OutputFormat::Json);
    assert_eq!(field(&full, "displayedMessageCount").and_then(|v| v.as_u64()), Some(1));
    assert_eq!(field(&full, "isTruncated").and_then(|v| v.as_bool()), Some(true));
    assert_eq!(text(&items(field(&full, "messages").unwrap())[0], "author"), Some("alice"));

    let table = build_single_output("#general", "C1", 12, messages(), false, OutputFormat::Table);
    assert!(matches!(table, Json::Array(_)));
    let table_counted = build_single_output("#general", "C1", 12, messages(), true, OutputFormat::Table);
    assert_eq!(field(&table_counted, "unreadCount").and_then(|v| v.as_u64()), Some(12));
}

#[test]
fn unread_rows_name_the_author_and_fill_in_empty_text() {
    let users = vec![("U1".to_string(), "alice".to_string())];
    let row = unread_message_row(&obj(vec![("user", s("U1")), ("text", s(""))]), "t".to_string(), &users);
    assert_eq!(text(&row, "author"), Some("alice"));
    assert_eq!(text(&row, "text"), Some("(no text)"));
    assert_eq!(text(&row, "timestamp"), Some("t"));
}

fn send_with_blocks(blocks: Option<&str>, blocks_file: Option<&str>) -> SendCommand {
    SendCommand {
        channel: Some("general".to_string()),
        user: None,
        email: None,
        message: None,
        file: None,
        blocks: blocks.map(|b| b.to_string()),
        blocks_file: blocks_file.map(|b| b.to_string()),
        thread: None,
        at: None,
        after: None,
    }
}

#[test]
fn blocks_validation_rejects_conflicts_and_non_arrays() {
    assert_eq!(err_text(validate_blocks(&send_with_blocks(Some("[]"), Some("blocks.json")))), SEND_ERR_BOTH_BLOCKS);
    for raw in ["{not json", "{\"a\":1}"] {
        assert_eq!(err_text(validate_blocks(&send_with_blocks(Some(raw), None))), ERR_INVALID_BLOCKS, "{raw}");
    }
    let parsed = validate_blocks(&send_with_blocks(Some("[{\"type\":\"divider\"}]"), None)).unwrap();
    assert_eq!(parsed, Some("[{\"type\":\"divider\"}]".to_string()));
}

#[test]
fn iso8601_output_always_has_three_millisecond_digits() {
    assert_eq!(format_iso8601_millis(1_700_000_000), "2023-11-14T22:13:20.000Z");
}

#[test]
fn missing_files_report_the_path() {
    let err = file_not_found("/nonexistent/path/report.csv");
    assert_eq!(err.message(), "File not found: /nonexistent/path/report.csv");
    assert_eq!(err.code(), Some(CODE_FILE));
}

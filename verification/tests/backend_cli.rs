use tokenguard::backend::{audit_csv, csv_escape, export_folder, export_run_names, is_export_due_from_setting, parse_export_stamp, restore_marker_path, usage_csv, AuditRow, LogRow, DAY_MS};
use tokenguard::cli::doctor::Verdict;
use tokenguard::cli::smoke_test::truncate;

#[test]
fn csv_escape_quotes_only_when_needed() {
    assert_eq!(csv_escape("gpt-4o"), "gpt-4o");
    assert_eq!(csv_escape("Acme, Inc"), "\"Acme, Inc\"");
    assert_eq!(csv_escape("say \"hi\""), "\"say \"\"hi\"\"\"");
    assert_eq!(csv_escape("line1\nline2"), "\"line1\nline2\"");
    assert_eq!(csv_escape("a,\"b\""), "\"a,\"\"b\"\"\"");
    assert_eq!(csv_escape(""), "");
}

#[test]
fn restore_marker_sits_next_to_the_database() {
    assert_eq!(
        restore_marker_path("/data/tokenguard.db"),
        "/data/tokenguard.db.restore-pending"
    );
}

#[test]
fn verdict_tags() {
    assert_eq!(Verdict::Pass.tag(), "ok  ");
    assert_eq!(Verdict::Warn.tag(), "warn");
    assert_eq!(Verdict::Fail.tag(), "FAIL");
}

#[test]
fn truncates_long_strings() {
    assert_eq!(truncate("hello", 10), "hello");
    assert_eq!(truncate("hello world", 5), "hello…");
}

#[test]
fn log_truncate_keeps_room_for_the_ellipsis() {
    assert_eq!(tokenguard::cli::logs::truncate("hello world", 5), "hell…");
    assert_eq!(tokenguard::cli::logs::truncate("hello", 5), "hello");
}

fn log_row(id: i64, ts: &str, provider: &str, cost: u64, status: Option<u16>, project: Option<&str>) -> LogRow {
    LogRow {
        id,
        ts: ts.to_string(),
        provider: provider.to_string(),
        model: "gpt-4o".to_string(),
        prompt_tokens: 120,
        completion_tokens: 30,
        cost,
        duration_ms: 850,
        status,
        project_tag: project.map(|p| p.to_string()),
    }
}

#[test]
fn usage_csv_lists_oldest_first_with_six_decimal_costs() {
    let rows = vec![
        log_row(2, "2026-01-02T00:00:00Z", "Acme, Inc", 5, Some(200), None),
        log_row(1, "2026-01-01T00:00:00Z", "openai", 1_234_567, None, Some("app")),
    ];
    assert_eq!(
        usage_csv(&rows, false),
        "timestamp,provider,model,prompt_tokens,completion_tokens,cost,project\n\
         2026-01-01T00:00:00Z,openai,gpt-4o,120,30,1.234567,app\n\
         2026-01-02T00:00:00Z,\"Acme, Inc\",gpt-4o,120,30,0.000005,\n"
    );
    assert_eq!(
        usage_csv(&rows, true),
        "timestamp,provider,model,prompt_tokens,completion_tokens,cost,duration_ms,status,project\n\
         2026-01-01T00:00:00Z,openai,gpt-4o,120,30,1.234567,850,,app\n\
         2026-01-02T00:00:00Z,\"Acme, Inc\",gpt-4o,120,30,0.000005,850,200,\n"
    );
}

#[test]
fn audit_csv_escapes_details() {
    let rows = vec![
        AuditRow { ts: "t2".to_string(), event_type: "limit_hit".to_string(), details: "a \"b\"".to_string() },
        AuditRow { ts: "t1".to_string(), event_type: "start".to_string(), details: "x,y".to_string() },
    ];
    assert_eq!(
        audit_csv(&rows, true),
        "timestamp,event_type,details\nt1,start,\"x,y\"\nt2,limit_hit,\"a \"\"b\"\"\"\n"
    );
    assert_eq!(
        audit_csv(&rows, false),
        "timestamp,event_type,details\nt2,limit_hit,\"a \"\"b\"\"\"\nt1,start,\"x,y\"\n"
    );
}

#[test]
fn export_stamp_reads_rfc3339() {
    assert_eq!(parse_export_stamp("2026-01-01T00:00:00Z"), Ok(1_767_225_600_000));
    assert_eq!(parse_export_stamp("2026-01-01T02:00:00+02:00"), Ok(1_767_225_600_000));
    assert!(parse_export_stamp("yesterday").is_err());
}

#[test]
fn auto_export_due_from_the_stored_stamp() {
    let stamp = "2026-01-01T00:00:00Z";
    let t = 1_767_225_600_000i64;
    assert_eq!(is_export_due_from_setting(7, Some("/tmp"), true, None, t), Ok(true));
    assert_eq!(is_export_due_from_setting(7, Some("/tmp"), true, Some(stamp), t + 1_000), Ok(false));
    assert_eq!(is_export_due_from_setting(7, Some("/tmp"), true, Some(stamp), t + 8 * DAY_MS), Ok(true));
    assert!(is_export_due_from_setting(7, Some("/tmp"), true, Some("not a time"), t).is_err());
    assert_eq!(is_export_due_from_setting(0, Some("/tmp"), true, Some("not a time"), t), Ok(false));
    assert_eq!(is_export_due_from_setting(7, Some(""), true, None, t), Ok(false));
    assert_eq!(is_export_due_from_setting(7, Some("/tmp"), false, None, t), Ok(false));
}

#[test]
fn export_run_names_follow_the_utc_time() {
    let (name, stamp) = export_run_names(1_767_225_600_000).unwrap();
    assert_eq!(name, "tokenguard-usage-20260101-000000.csv");
    assert_eq!(stamp, "2026-01-01T00:00:00+00:00");
    assert_eq!(parse_export_stamp(&stamp), Ok(1_767_225_600_000));
}

#[test]
fn auto_export_is_not_due_when_disabled_or_unconfigured() {
    let now = 1_767_225_600_000i64;
    // Off: an interval of zero days, even with a folder that exists.
    assert_eq!(is_export_due_from_setting(0, Some("/data/exports"), true, None, now), Ok(false));
    // Enabled but with no folder, and with a folder that no longer exists.
    assert_eq!(is_export_due_from_setting(7, None, false, None, now), Ok(false));
    assert_eq!(is_export_due_from_setting(7, Some("/data/exports/removed-drive"), false, None, now), Ok(false));
}

#[test]
fn auto_export_without_a_folder_errors_instead_of_writing_somewhere() {
    let err = export_folder(None).expect_err("no folder");
    assert!(err.contains("folder"), "unhelpful message: {err:?}");
    assert!(export_folder(Some("")).is_err());
    assert_eq!(export_folder(Some("/data/exports")), Ok("/data/exports".to_string()));
}

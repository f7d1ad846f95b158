use ttl_backend::routes::{
    as_invalid_input, current_reminders, export_bound, export_disposition, export_format,
    found_or_not_found, idempotency_key, plan_export, preferences_action, preferences_after_store, preferences_request,
    PreferencesAction, plan_export_with, requesting_user, simulation_request,
    unsubscribe_reply, validate_preferences, ApiError, ExportFormat, ExportPlan, ExportQuery,
    RemindersQuery, UnsubscribeQuery, UtcTimestamp,
};

fn invalid(message: &str) -> ApiError {
    ApiError::InvalidInput(message.to_string())
}

#[test]
fn deleted_reminders_are_listed_only_when_asked() {
    assert!(!RemindersQuery { include_deleted: None }.includes_deleted());
    assert!(!RemindersQuery { include_deleted: Some(false) }.includes_deleted());
    assert!(RemindersQuery { include_deleted: Some(true) }.includes_deleted());
}

#[test]
fn current_reminders_hold_the_found_record_or_nothing() {
    assert_eq!(current_reminders::<u32, ()>(Ok(7)), vec![7]);
    assert_eq!(current_reminders::<u32, String>(Err("missing".to_string())), Vec::<u32>::new());
}

#[test]
fn lookups_answer_not_found() {
    assert_eq!(found_or_not_found::<u8, ()>(Ok(3)), Ok(3));
    assert_eq!(found_or_not_found::<u8, ()>(Err(())), Err(ApiError::NotFound));
}

#[test]
fn failure_messages_become_invalid_input() {
    assert_eq!(as_invalid_input::<u8>(Ok(1)), Ok(1));
    assert_eq!(as_invalid_input::<u8>(Err("vault not found".to_string())), Err(invalid("vault not found")));
}

#[test]
fn preference_requests_need_channels_and_positive_hours() {
    assert_eq!(validate_preferences(0, 24), Err(invalid("channels must not be empty")));
    assert_eq!(validate_preferences(0, 0), Err(invalid("channels must not be empty")));
    assert_eq!(validate_preferences(1, 0), Err(invalid("hours_before_expiry must be > 0")));
    assert_eq!(validate_preferences(2, 24), Ok(()));
}

#[test]
fn unsubscribe_replies() {
    let _query = UnsubscribeQuery { token: "tok".to_string() };
    assert_eq!(
        unsubscribe_reply::<()>(Ok("owner@example.com".to_string())),
        Ok("You (owner@example.com) have been unsubscribed from reminder emails.".to_string())
    );
    assert_eq!(
        unsubscribe_reply::<&str>(Err("expired")),
        Err(invalid("Invalid or expired unsubscribe token"))
    );
}

#[test]
fn simulation_requests_need_a_scenario() {
    assert_eq!(
        simulation_request::<u8>(vec![], Some(3)),
        Err(invalid(
            "No valid scenarios requested. Use: no_check_ins, consistent_check_ins, missed_check_in_dates"
        ))
    );
    assert_eq!(simulation_request(vec!["no_check_ins"], None), Ok((vec!["no_check_ins"], 1)));
    assert_eq!(simulation_request(vec![1u8, 2], Some(4)), Ok((vec![1u8, 2], 4)));
}

#[test]
fn export_formats() {
    assert_eq!(export_format(&"csv".to_string()), Ok(ExportFormat::Csv));
    assert_eq!(export_format(&"json".to_string()), Ok(ExportFormat::Json));
    assert_eq!(export_format(&"CSV".to_string()), Err(invalid("format must be csv or json")));
    assert_eq!(export_format(&"xml".to_string()), Err(invalid("format must be csv or json")));
    assert_eq!(ExportFormat::Csv.content_type(), "text/csv");
    assert_eq!(ExportFormat::Json.content_type(), "application/json");
    assert_eq!(ExportFormat::Json.name(), "json");
}

#[test]
fn requesting_user_comes_from_a_readable_nonempty_header() {
    assert_eq!(requesting_user(None), None);
    assert_eq!(requesting_user(Some(b"")), None);
    assert_eq!(requesting_user(Some(b"\x01")), None);
    assert_eq!(requesting_user(Some(b"alice")), Some("alice".to_string()));
}

#[test]
fn export_bounds_parse_rfc3339_into_utc() {
    let utc = UtcTimestamp { secs: 1_704_067_200, nanos: 0 };
    assert_eq!(export_bound(&Some("2024-01-01T00:00:00Z".to_string())), Some(utc));
    assert_eq!(export_bound(&Some("2024-01-01T01:00:00+01:00".to_string())), Some(utc));
    assert_eq!(
        export_bound(&Some("2024-01-01T00:00:00.5Z".to_string())),
        Some(UtcTimestamp { secs: 1_704_067_200, nanos: 500_000_000 })
    );
    assert_eq!(export_bound(&Some("yesterday".to_string())), None);
    assert_eq!(export_bound(&Some("2024-01-01".to_string())), None);
    assert_eq!(export_bound(&None), None);
}

#[test]
fn export_plans() {
    let query = ExportQuery {
        format: "csv".to_string(),
        from: Some("1996-12-19T16:39:57-08:00".to_string()),
        to: Some("not a date".to_string()),
    };
    assert_eq!(
        plan_export(&query, Some(b"auditor")),
        Ok(ExportPlan {
            format: ExportFormat::Csv,
            from: Some(UtcTimestamp { secs: 851_042_397, nanos: 0 }),
            to: None,
            user_id: Some("auditor".to_string()),
        })
    );
    let query = ExportQuery { format: "pdf".to_string(), from: None, to: None };
    assert_eq!(plan_export(&query, None), Err(invalid("format must be csv or json")));
    assert_eq!(
        plan_export_with(&"json".to_string(), None, None, None),
        Ok(ExportPlan { format: ExportFormat::Json, from: None, to: None, user_id: None })
    );
}

#[test]
fn export_download_names() {
    assert_eq!(export_disposition("42", ExportFormat::Csv), "attachment; filename=\"vault-42.csv\"");
    assert_eq!(export_disposition("abc", ExportFormat::Json), "attachment; filename=\"vault-abc.json\"");
}

#[test]
fn idempotency_keys_are_readable_header_values() {
    assert_eq!(idempotency_key(None), None);
    assert_eq!(idempotency_key(Some(b"")), Some(String::new()));
    assert_eq!(idempotency_key(Some(b"req-1")), Some("req-1".to_string()));
    assert_eq!(idempotency_key(Some(b"req\n1")), None);
}

#[test]
fn preference_requests_validate_before_reading_the_key() {
    assert_eq!(preferences_request(0, 24, Some(b"k")), Err(invalid("channels must not be empty")));
    assert_eq!(preferences_request(1, 0, Some(b"k")), Err(invalid("hours_before_expiry must be > 0")));
    assert_eq!(preferences_request(1, 24, Some(b"k-1")), Ok(Some("k-1".to_string())));
    assert_eq!(preferences_request(1, 24, Some(b"\x00")), Ok(None));
    assert_eq!(preferences_request(3, 1, None), Ok(None));
}

#[test]
fn recorded_replies_are_replayed_and_new_ones_recorded() {
    assert_eq!(preferences_action(Some("k".to_string()), Some("{}")), PreferencesAction::Replay("{}"));
    assert_eq!(
        preferences_action::<&str>(Some("k".to_string()), None),
        PreferencesAction::Save { record_under: Some("k".to_string()) }
    );
    assert_eq!(preferences_action::<&str>(None, None), PreferencesAction::Save { record_under: None });
    assert_eq!(preferences_action(None, Some("{}")), PreferencesAction::Save { record_under: None });
}

#[test]
fn replies_are_recorded_only_after_a_successful_store() {
    assert_eq!(preferences_after_store::<&str>(Some("k".to_string()), Ok(())), Ok(Some("k".to_string())));
    assert_eq!(preferences_after_store::<&str>(None, Ok(())), Ok(None));
    assert_eq!(preferences_after_store(Some("k".to_string()), Err("db down")), Err("db down"));
}

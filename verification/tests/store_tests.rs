use jarvis_desktop::errors::ErrorKind;
use jarvis_desktop::retry::compute_next_retry_at_ms;
use jarvis_desktop::settings::{validate_settings, DesktopSettings};
use jarvis_desktop::store::{
    audit_jsonl_path, ensure_schema_writable, evaluate_load_gate, jobs_file_path,
    migrate_schema_step, migration_steps, pipelines_file_path, settings_file_path,
};

#[test]
fn schema_version_missing_defaults_to_v1_for_jobs() {
    let legacy = r#"{"jobs":[{"job_id":"job_1","template_id":"TEMPLATE_TREE","canonical_id":"arxiv:1","params":{},"status":"queued","attempt":0,"created_at":"1","updated_at":"1","run_id":null,"last_error":null,"retry_after_seconds":null,"retry_at":null}]}"#;
    assert_eq!(evaluate_load_gate(legacy).expect("load legacy jobs"), 1);
}

#[test]
fn schema_version_higher_refuses_read_and_write() {
    let doc = r#"{"schema_version":99,"pipelines":[]}"#;
    let load_err = evaluate_load_gate(doc).expect_err("must fail on high schema load");
    assert!(matches!(load_err.kind, ErrorKind::SchemaUnsupported));
    assert!(load_err.text().contains("unsupported schema_version"));

    let write_err = ensure_schema_writable(Some(doc)).expect_err("must fail on high schema write");
    assert!(matches!(write_err.kind, ErrorKind::SchemaUnsupported));
    assert!(write_err.text().contains("refusing to modify"));
}

#[test]
fn schema_gate_accepts_current_documents_and_new_files() {
    assert_eq!(evaluate_load_gate(r#"{"schema_version":1,"jobs":[]}"#).unwrap(), 1);
    assert!(ensure_schema_writable(Some(r#"{"schema_version":1,"jobs":[]}"#)).is_ok());
    assert!(ensure_schema_writable(None).is_ok());
}

#[test]
fn corrupt_documents_fail_as_persistence_errors() {
    let err = evaluate_load_gate("not json at all").expect_err("must fail");
    assert!(matches!(err.kind, ErrorKind::PersistenceFailure));
    let err2 = evaluate_load_gate("[1,2,3]").expect_err("must fail");
    assert!(matches!(err2.kind, ErrorKind::PersistenceFailure));
}

#[test]
fn migration_chain_is_one_step_at_a_time() {
    assert!(migrate_schema_step(1, 2).is_ok());
    assert!(migrate_schema_step(2, 3).is_err());
    assert!(migrate_schema_step(1, 3).is_err());
    assert_eq!(migration_steps(1).len(), 0);
}

#[test]
fn store_layout_is_fixed_under_the_output_directory() {
    assert_eq!(jobs_file_path("out"), "out/.jarvis-desktop/jobs.json");
    assert_eq!(pipelines_file_path("out"), "out/.jarvis-desktop/pipelines.json");
    assert_eq!(settings_file_path("out"), "out/.jarvis-desktop/settings.json");
    assert_eq!(audit_jsonl_path("out"), "out/.jarvis-desktop/audit.jsonl");
}

#[test]
fn auto_retry_schedule_prefers_retry_after_header() {
    let settings = DesktopSettings::default();
    let next = compute_next_retry_at_ms(1000, Some(12_500), 3, &settings);
    assert_eq!(next, 1000 + 12_500);
}

#[test]
fn auto_retry_schedule_uses_exponential_backoff_with_cap() {
    let settings = DesktopSettings {
        auto_retry_enabled: true,
        auto_retry_max_per_job: 3,
        auto_retry_max_per_pipeline: 3,
        auto_retry_base_delay_seconds: 10,
        auto_retry_max_delay_seconds: 25,
    };

    let first = compute_next_retry_at_ms(2000, None, 1, &settings);
    assert_eq!(first, 2000 + 10_000);

    let third = compute_next_retry_at_ms(2000, None, 3, &settings);
    assert_eq!(third, 2000 + 25_000);
}

#[test]
fn retry_hint_is_clamped_to_the_maximum_delay() {
    let settings = DesktopSettings {
        auto_retry_enabled: true,
        auto_retry_max_per_job: 3,
        auto_retry_max_per_pipeline: 3,
        auto_retry_base_delay_seconds: 10,
        auto_retry_max_delay_seconds: 25,
    };
    let next = compute_next_retry_at_ms(2000, Some(60_000), 1, &settings);
    assert_eq!(next, 2000 + 25_000);
}

#[test]
fn settings_updates_reject_zero_bounds() {
    assert!(validate_settings(&DesktopSettings::default()).is_ok());
    let mut bad = DesktopSettings::default();
    bad.auto_retry_max_per_job = 0;
    let err = validate_settings(&bad).unwrap_err();
    assert!(matches!(err.kind, ErrorKind::InvalidInput));
}

#[test]
fn settings_document_round_trips_through_a_json_reader() {
    let s = DesktopSettings {
        auto_retry_enabled: true,
        auto_retry_max_per_job: 4,
        auto_retry_max_per_pipeline: 5,
        auto_retry_max_delay_seconds: 100,
        auto_retry_base_delay_seconds: 7,
    };
    let text = jarvis_desktop::store::encode_settings_document(&s);
    let v: serde_json::Value = serde_json::from_str(&text).expect("valid JSON");
    assert_eq!(v.get("schema_version").and_then(|x| x.as_u64()), Some(1));
    let inner = v.get("settings").expect("settings object");
    assert_eq!(inner.get("auto_retry_enabled").and_then(|x| x.as_bool()), Some(true));
    assert_eq!(inner.get("auto_retry_max_per_job").and_then(|x| x.as_u64()), Some(4));
    assert_eq!(inner.get("auto_retry_max_per_pipeline").and_then(|x| x.as_u64()), Some(5));
    assert_eq!(inner.get("auto_retry_max_delay_seconds").and_then(|x| x.as_u64()), Some(100));
    assert_eq!(inner.get("auto_retry_base_delay_seconds").and_then(|x| x.as_u64()), Some(7));
    assert_eq!(evaluate_load_gate(&text).expect("current version loads"), 1);
}

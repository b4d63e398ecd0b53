use jarvis_desktop::artifacts::{
    classify_artifact_kind, detect_artifact_kind_by_name, is_probable_graph_name, kind_priority,
    make_artifact_item, select_primary_viz_artifact, validate_run_id_component, ArtifactItem,
};
use jarvis_desktop::config::first_from_precedence;
use jarvis_desktop::errors::ErrorKind;
use jarvis_desktop::html::build_sandboxed_html;
use jarvis_desktop::library::tokenize_query;
use jarvis_desktop::outcome::read_status;
use jarvis_desktop::retry::parse_retry_at_ms;
use jarvis_desktop::shortcut::build_shortcut_ps_script;
use jarvis_desktop::status::{
    is_needs_attention_job_status, is_needs_attention_pipeline_status, JobStatus, PipelineStatus,
};

#[test]
fn config_precedence_is_file_then_env_then_autodetect() {
    let selected = first_from_precedence(Some("C:/file-root"), Some("C:/env-root"), Some("C:/auto"));
    assert_eq!(selected.as_deref(), Some("C:/file-root"));

    let selected = first_from_precedence(None, Some("C:/env-root"), Some("C:/auto"));
    assert_eq!(selected.as_deref(), Some("C:/env-root"));

    let selected = first_from_precedence(None, None, Some("C:/auto"));
    assert_eq!(selected.as_deref(), Some("C:/auto"));
}

#[test]
fn status_maps_429_to_needs_retry_even_when_exit_nonzero() {
    let status = read_status(
        "",
        "S2 retry exhausted: status=429 url=https://api.semanticscholar.org/graph/v1/paper/...",
        1,
    );
    assert_eq!(status, "needs_retry");
}

#[test]
fn read_status_uses_exit_code_without_retry_signal() {
    assert_eq!(read_status("all good", "", 0), "ok");
    assert_eq!(read_status("", "boom", 3), "error");
}

#[test]
fn library_search_tokenization_trims_and_lowers() {
    let tokens = tokenize_query("  DOI:10.1000/XYZ   failed ");
    assert_eq!(tokens, vec!["doi:10.1000/xyz".to_string(), "failed".to_string()]);
}

#[test]
fn parse_retry_at_ms_handles_valid_and_invalid_values() {
    let valid = Some("12345".to_string());
    assert_eq!(parse_retry_at_ms(valid.as_ref()), Some(12_345));

    let invalid = Some("not-a-number".to_string());
    assert_eq!(parse_retry_at_ms(invalid.as_ref()), None);
    assert_eq!(parse_retry_at_ms(None), None);
}

#[test]
fn needs_attention_filter_logic_matches_failed_and_retry_only() {
    assert!(is_needs_attention_job_status(&JobStatus::Failed));
    assert!(is_needs_attention_job_status(&JobStatus::NeedsRetry));
    assert!(!is_needs_attention_job_status(&JobStatus::Queued));
    assert!(!is_needs_attention_job_status(&JobStatus::Running));
    assert!(!is_needs_attention_job_status(&JobStatus::Succeeded));
    assert!(!is_needs_attention_job_status(&JobStatus::Canceled));

    assert!(is_needs_attention_pipeline_status(&PipelineStatus::Failed));
    assert!(is_needs_attention_pipeline_status(&PipelineStatus::NeedsRetry));
    assert!(!is_needs_attention_pipeline_status(&PipelineStatus::Running));
    assert!(!is_needs_attention_pipeline_status(&PipelineStatus::Succeeded));
    assert!(!is_needs_attention_pipeline_status(&PipelineStatus::Canceled));
}

#[test]
fn sandboxed_html_inserts_csp_and_removes_scripts() {
    let raw = r#"<html><head><script>alert(1)</script></head><body><a href="https://example.com">x</a></body></html>"#;
    let (safe, warnings) = build_sandboxed_html(raw);
    assert!(safe.to_lowercase().contains("content-security-policy"));
    assert!(!safe.to_lowercase().contains("<script"));
    assert!(warnings.iter().any(|w| w.contains("scripts were removed")));
    assert!(warnings.iter().any(|w| w.contains("external refs detected")));
}

#[test]
fn sandboxed_html_without_findings_has_no_banner() {
    let (safe, warnings) = build_sandboxed_html("<p>hello</p>");
    assert!(warnings.is_empty());
    assert!(!safe.contains("<div style="));
    assert!(safe.contains("<p>hello</p>"));
}

#[test]
fn shortcut_ps_script_is_deterministic() {
    let script = build_shortcut_ps_script(
        "C:\\Program Files\\Jarvis\\app.exe",
        "C:\\Users\\tester\\Desktop\\jarvis-desktop.lnk",
        "C:\\Program Files\\Jarvis\\app.exe",
    );
    let expected = "$TargetPath = 'C:\\Program Files\\Jarvis\\app.exe'\n\
$LinkPath = 'C:\\Users\\tester\\Desktop\\jarvis-desktop.lnk'\n\
$IconPath = 'C:\\Program Files\\Jarvis\\app.exe'\n\
$WshShell = New-Object -ComObject WScript.Shell\n\
$Shortcut = $WshShell.CreateShortcut($LinkPath)\n\
$Shortcut.TargetPath = $TargetPath\n\
$Shortcut.WorkingDirectory = Split-Path -Path $TargetPath -Parent\n\
$Shortcut.IconLocation = $IconPath\n\
$Shortcut.Save()\n";
    assert_eq!(script, expected);
}

#[test]
fn shortcut_ps_script_escapes_single_quotes() {
    let script = build_shortcut_ps_script(
        "C:\\Apps\\jarvis'\\app.exe",
        "C:\\Users\\tester\\Desktop\\jarvis-desktop.lnk",
        "C:\\Apps\\jarvis'\\app.exe",
    );
    assert!(script.contains("jarvis''\\app.exe"));
}

#[test]
fn primary_viz_selection_prefers_html_then_graph_json() {
    let items = vec![
        ArtifactItem {
            name: "z_graph.json".to_string(),
            rel_path: "z_graph.json".to_string(),
            kind: "graph_json".to_string(),
            size_bytes: Some(10),
            mtime_iso: None,
        },
        ArtifactItem {
            name: "b_map.html".to_string(),
            rel_path: "nested/b_map.html".to_string(),
            kind: "html".to_string(),
            size_bytes: Some(10),
            mtime_iso: None,
        },
        ArtifactItem {
            name: "a_map.html".to_string(),
            rel_path: "a_map.html".to_string(),
            kind: "html".to_string(),
            size_bytes: Some(10),
            mtime_iso: None,
        },
    ];

    let picked = select_primary_viz_artifact(&items).expect("primary viz should exist");
    assert_eq!(picked.kind, "html");
    assert_eq!(picked.name, "a_map.html");
}

#[test]
fn artifact_kinds_follow_names_and_structure() {
    assert_eq!(detect_artifact_kind_by_name("tree.md"), "markdown");
    assert_eq!(detect_artifact_kind_by_name("MAP.HTML"), "html");
    assert_eq!(detect_artifact_kind_by_name("payload.json"), "json");
    assert_eq!(detect_artifact_kind_by_name("stdout.log"), "text");
    assert_eq!(detect_artifact_kind_by_name("blob.bin"), "unknown");

    assert!(is_probable_graph_name("my_graph_payload.json"));
    assert_eq!(
        classify_artifact_kind("my_graph_payload.json", Some(7), false),
        "graph_json"
    );
    assert_eq!(classify_artifact_kind("payload.json", Some(24), true), "graph_json");
    assert_eq!(classify_artifact_kind("payload.json", Some(24), false), "json");
    assert_eq!(classify_artifact_kind("payload.json", Some(300 * 1024), true), "json");

    assert_eq!(kind_priority("markdown"), 0);
    assert_eq!(kind_priority("html"), 1);
    assert_eq!(kind_priority("graph_json"), 2);
    assert_eq!(kind_priority("json"), 3);
    assert_eq!(kind_priority("text"), 4);
    assert_eq!(kind_priority("zip"), 5);
}

#[test]
fn artifact_name_rejects_traversal_patterns() {
    assert!(validate_run_id_component("../result.json").is_err());
    assert!(validate_run_id_component("paper_graph/tree").is_err());
    assert!(validate_run_id_component("  ").is_err());
    assert!(validate_run_id_component(".").is_err());
    let err = validate_run_id_component("..").unwrap_err();
    assert!(matches!(err.kind, ErrorKind::InvalidInput));
    assert_eq!(validate_run_id_component(" run_1 ").unwrap(), "run_1");
}

#[test]
fn artifact_item_timestamps_render_as_rfc3339() {
    let item = make_artifact_item(
        "tree.md".to_string(),
        "paper_graph/tree/tree.md".to_string(),
        Some(6),
        Some(0),
        false,
    );
    assert_eq!(item.kind, "markdown");
    assert_eq!(item.mtime_iso.as_deref(), Some("1970-01-01T00:00:00+00:00"));
}

#[test]
fn first_non_empty_line_skips_blank_lines() {
    assert_eq!(
        jarvis_desktop::outcome::first_non_empty_line("\n   \n  boom: it failed  \nmore"),
        Some("boom: it failed".to_string())
    );
    assert_eq!(jarvis_desktop::outcome::first_non_empty_line("  \n \t \n"), None);
    assert_eq!(jarvis_desktop::outcome::first_non_empty_line(""), None);
}

#[test]
fn case_insensitive_search_finds_mixed_case_tags() {
    let hay: Vec<char> = "<HTML><ScRiPt>x".chars().collect();
    let needle: Vec<char> = "<script".chars().collect();
    assert_eq!(jarvis_desktop::html::find_ascii_nocase(&hay, &needle), Some(6));
    let absent: Vec<char> = "<iframe".chars().collect();
    assert_eq!(jarvis_desktop::html::find_ascii_nocase(&hay, &absent), None);
}

use std::time::Duration;

use slackwatch::models::{Notifications, Ntfy, Settings, System, UpdateStatus, Workload};
use slackwatch::notifications::ntfy::{
    build_batch_payloads, commit_notification, duration_fits, load_settings, parse_duration,
    ActionType, Payload, Priority, NTFY_MAX_ACTIONS,
};

fn test_workload(name: &str) -> Workload {
    Workload {
        name: name.to_string(),
        exclude_pattern: None,
        git_ops_repo: None,
        include_pattern: None,
        update_available: UpdateStatus::Available,
        git_directory: None,
        image: format!("docker.io/example/{}", name),
        last_scanned: "2026-09-21T00:00:00Z".to_string(),
        namespace: "default".to_string(),
        current_version: "1.0.0".to_string(),
        latest_version: "1.1.0".to_string(),
        scan_exhausted: "False".to_string(),
        error: None,
    }
}

fn action_count(payload: &Payload) -> usize {
    payload.actions.as_ref().map(|a| a.len()).unwrap_or(0)
}

fn ntfy_config(callback_token: Option<&str>) -> Ntfy {
    Ntfy {
        url: "http://ntfy.example.com".to_string(),
        topic: "updates".to_string(),
        reminder: "24h".to_string(),
        token: "secrettoken".to_string(),
        callback_url: Some("http://slackwatch:8080".to_string()),
        callback_token: callback_token.map(|t| t.to_string()),
        auto_rescan_delay: "10m".to_string(),
    }
}

fn settings_with(notifications: Option<Notifications>) -> Settings {
    Settings {
        system: System { schedule: "0 0 * * * *".to_string(), data_dir: "/tmp/data".to_string() },
        notifications,
        gitops: None,
    }
}

#[test]
fn test_build_batch_payloads_single_chunk() {
    let workloads: Vec<Workload> = (0..3).map(|i| test_workload(&format!("wl{}", i))).collect();
    let payloads = build_batch_payloads(&workloads, "topic", &None, &None);

    assert_eq!(payloads.len(), 1);
    assert_eq!(payloads[0].title.as_deref(), Some("SlackWatch Updates"));
    assert!(action_count(&payloads[0]) == 0);
    assert!(payloads[0].message.contains("**wl0**"));
    assert!(payloads[0].message.contains("**wl2**"));
}

#[test]
fn test_build_batch_payloads_never_exceeds_ntfy_action_limit() {
    // ntfy rejects messages with more than NTFY_MAX_ACTIONS actions
    let workloads: Vec<Workload> = (0..8).map(|i| test_workload(&format!("wl{}", i))).collect();
    let callback_url = Some("https://slackwatch.example.com".to_string());
    let payloads = build_batch_payloads(&workloads, "topic", &callback_url, &None);

    assert_eq!(payloads.len(), 3);
    for payload in &payloads {
        assert!(
            action_count(payload) <= NTFY_MAX_ACTIONS,
            "payload has more than {} actions",
            NTFY_MAX_ACTIONS
        );
        assert!(!payload.message.is_empty());
    }
    // 8 workloads -> 3 + 3 + 2 actions, none dropped
    let total_actions: usize = payloads.iter().map(action_count).sum();
    assert_eq!(total_actions, 8);
    assert_eq!(payloads[0].title.as_deref(), Some("SlackWatch Updates (1/3)"));
    assert_eq!(payloads[1].title.as_deref(), Some("SlackWatch Updates (2/3)"));
    assert_eq!(payloads[2].title.as_deref(), Some("SlackWatch Updates (3/3)"));
}

#[test]
fn test_build_batch_payloads_action_urls_include_token() {
    let workloads: Vec<Workload> = vec![test_workload("wl0")];
    let callback_url = Some("https://slackwatch.example.com".to_string());
    let callback_token = Some("secret-token".to_string());
    let payloads = build_batch_payloads(&workloads, "topic", &callback_url, &callback_token);

    assert_eq!(payloads.len(), 1);
    let actions = payloads[0].actions.as_ref().unwrap();
    assert_eq!(actions.len(), 1);
    let url = actions[0].url.as_str();
    assert!(url.starts_with("https://slackwatch.example.com/api/ntfy/callback?"));
    assert!(url.contains("action=wl0"));
    assert!(url.contains("namespace=default"));
    assert!(url.contains("latest_version=1.1.0"));
    assert!(url.contains("token=secret-token"));
    assert_eq!(actions[0].label, "Upgrade");
}

#[test]
fn test_parse_duration_minutes() {
    assert_eq!(parse_duration("5m").map(Duration::from_secs), Some(Duration::from_secs(300)));
    assert_eq!(parse_duration("10m").map(Duration::from_secs), Some(Duration::from_secs(600)));
}

#[test]
fn test_parse_duration_hours() {
    assert_eq!(parse_duration("1h").map(Duration::from_secs), Some(Duration::from_secs(3600)));
}

#[test]
fn test_parse_duration_off() {
    assert_eq!(parse_duration("off"), None);
}

#[test]
fn test_parse_duration_invalid() {
    assert_eq!(parse_duration("invalid"), None);
}

#[test]
fn parse_duration_trims_and_accepts_plus_sign() {
    assert_eq!(parse_duration("  5m\t"), Some(300));
    assert_eq!(parse_duration("+2h"), Some(7200));
    assert_eq!(parse_duration("0m"), Some(0));
    assert_eq!(parse_duration("\u{3000}1h\u{a0}"), Some(3600));
}

#[test]
fn parse_duration_rejects_malformed_numbers() {
    assert_eq!(parse_duration(""), None);
    assert_eq!(parse_duration("m"), None);
    assert_eq!(parse_duration("+m"), None);
    assert_eq!(parse_duration("-5m"), None);
    assert_eq!(parse_duration("5 m"), None);
    assert_eq!(parse_duration("5M"), None);
    assert_eq!(parse_duration("5s"), None);
    assert_eq!(parse_duration("1.5h"), None);
    assert_eq!(parse_duration(" off"), None);
    assert_eq!(parse_duration("18446744073709551616m"), None);
}

#[test]
fn duration_fits_marks_overflowing_delays() {
    assert!(duration_fits("5m"));
    assert!(duration_fits("off"));
    assert!(duration_fits("garbage"));
    assert!(duration_fits("307445734561825860m"));
    assert!(!duration_fits("307445734561825861m"));
    assert!(!duration_fits("18446744073709551615h"));
    assert_eq!(parse_duration("307445734561825860m"), Some(307445734561825860 * 60));
}

#[test]
fn batch_payloads_of_no_workloads_is_empty() {
    let payloads = build_batch_payloads(&[], "topic", &Some("https://x.example".to_string()), &None);
    assert!(payloads.is_empty());
}

#[test]
fn batch_payload_message_and_fields_are_exact() {
    let mut w = test_workload("web");
    w.current_version = "1.2.0".to_string();
    w.latest_version = "1.3.0".to_string();
    let payloads = build_batch_payloads(&[w], "updates", &None, &None);
    assert_eq!(payloads.len(), 1);
    let p = &payloads[0];
    assert_eq!(p.topic, "updates");
    assert_eq!(p.message, "**Update Available**\n\n- **web**: 1.2.0 → 1.3.0\n");
    assert_eq!(p.tags, vec!["Update".to_string()]);
    assert_eq!(p.priority, Priority::High);
    assert!(p.markdown);
    assert!(p.actions.is_none());
}

#[test]
fn batch_payloads_split_in_chunks_of_three_in_order() {
    let workloads: Vec<Workload> = (0..4).map(|i| test_workload(&format!("wl{}", i))).collect();
    let payloads = build_batch_payloads(&workloads, "topic", &None, &None);
    assert_eq!(payloads.len(), 2);
    assert_eq!(payloads[0].title.as_deref(), Some("SlackWatch Updates (1/2)"));
    assert_eq!(payloads[1].title.as_deref(), Some("SlackWatch Updates (2/2)"));
    assert!(payloads[0].message.contains("**wl0**"));
    assert!(payloads[0].message.contains("**wl2**"));
    assert!(!payloads[0].message.contains("**wl3**"));
    assert_eq!(payloads[1].message, "**Update Available**\n\n- **wl3**: 1.0.0 → 1.1.0\n");
}

#[test]
fn batch_payloads_with_twelve_parts_number_titles() {
    let workloads: Vec<Workload> = (0..34).map(|i| test_workload(&format!("w{}", i))).collect();
    let payloads = build_batch_payloads(&workloads, "topic", &None, &None);
    assert_eq!(payloads.len(), 12);
    assert_eq!(payloads[9].title.as_deref(), Some("SlackWatch Updates (10/12)"));
    assert_eq!(payloads[11].message, "**Update Available**\n\n- **w33**: 1.0.0 → 1.1.0\n");
}

#[test]
fn batch_action_url_is_exact_and_parsed() {
    let workloads = vec![test_workload("wl0")];
    let payloads = build_batch_payloads(
        &workloads,
        "topic",
        &Some("https://slackwatch.example.com".to_string()),
        &None,
    );
    let actions = payloads[0].actions.as_ref().unwrap();
    assert_eq!(actions[0].action, ActionType::Http);
    assert_eq!(
        actions[0].url,
        "https://slackwatch.example.com/api/ntfy/callback?action=wl0&namespace=default&latest_version=1.1.0"
    );
}

#[test]
fn batch_actions_dropped_when_callback_url_does_not_parse() {
    let workloads = vec![test_workload("wl0"), test_workload("wl1")];
    let payloads = build_batch_payloads(&workloads, "topic", &Some("not a url".to_string()), &None);
    assert_eq!(payloads.len(), 1);
    assert!(payloads[0].actions.is_none());
}

#[test]
fn batch_action_url_is_normalized_by_url_parsing() {
    // the URL parser lower-cases the host; the raw text would keep it
    let workloads = vec![test_workload("wl0")];
    let payloads = build_batch_payloads(&workloads, "topic", &Some("https://EXAMPLE.com".to_string()), &None);
    let actions = payloads[0].actions.as_ref().unwrap();
    assert!(actions[0].url.starts_with("https://example.com/api/ntfy/callback?"));
}

#[test]
fn commit_notification_is_exact() {
    let w = test_workload("api");
    let p = commit_notification(&w, "updates");
    assert_eq!(p.topic, "updates");
    assert_eq!(p.message, "Deployment api has been updated to version 1.1.0");
    assert_eq!(p.title.as_deref(), Some("api"));
    assert_eq!(p.tags, vec!["Update".to_string()]);
    assert_eq!(p.priority, Priority::Default);
    assert!(p.markdown);
    assert!(p.actions.is_none());
}

#[test]
fn ntfy_load_settings_reports_missing_sections() {
    match load_settings(settings_with(None)) {
        Err(e) => assert_eq!(e, "No Notifications Config Found"),
        Ok(_) => panic!("expected an error"),
    }
    match load_settings(settings_with(Some(Notifications { ntfy: None }))) {
        Err(e) => assert_eq!(e, "No Ntfy Config Found"),
        Ok(_) => panic!("expected an error"),
    }
    match load_settings(settings_with(Some(Notifications { ntfy: Some(ntfy_config(Some("t"))) }))) {
        Ok(c) => {
            assert_eq!(c.topic, "updates");
            assert_eq!(c.callback_token.as_deref(), Some("t"));
        },
        Err(_) => panic!("expected the ntfy section"),
    }
}

#[test]
fn whitespace_around_delay_is_ignored() {
    assert_eq!(parse_duration("  5m \n"), Some(300));
    assert_eq!(parse_duration("\t2h"), Some(7200));
    assert_eq!(parse_duration(" off "), None);
    assert_eq!(parse_duration("off"), None);
}

#[test]
fn buttons_follow_parsed_urls() {
    let parsed = vec![Some("http://x/a".to_string()), None, Some("http://x/b".to_string())];
    let buttons = slackwatch::notifications::ntfy::upgrade_buttons(&parsed);
    assert_eq!(buttons.len(), 2);
    assert_eq!(buttons[0].url, "http://x/a");
    assert_eq!(buttons[1].url, "http://x/b");
    assert!(buttons.iter().all(|b| b.label == "Upgrade" && matches!(b.action, ActionType::Http)));
    assert!(slackwatch::notifications::ntfy::upgrade_buttons(&vec![None]).is_empty());
}

#[test]
fn updates_are_announced_only_when_there_are_some() {
    assert!(!slackwatch::notifications::ntfy::has_updates(&vec![]));
    assert!(slackwatch::notifications::ntfy::has_updates(&vec![test_workload("a")]));
}

use slackwatch::api::{failure_message, CallbackQuery, CallbackStep, NtfyCallback};
use slackwatch::models::{Notifications, Ntfy, Settings, System};

fn settings(callback_token: Option<&str>, ntfy: bool) -> Settings {
    Settings {
        system: System { schedule: "0 0 * * * *".to_string(), data_dir: "/tmp".to_string() },
        notifications: Some(Notifications {
            ntfy: if ntfy {
                Some(Ntfy {
                    url: "http://ntfy".to_string(),
                    topic: "updates".to_string(),
                    reminder: "24h".to_string(),
                    token: "t".to_string(),
                    callback_url: None,
                    callback_token: callback_token.map(|t| t.to_string()),
                    auto_rescan_delay: "5m".to_string(),
                })
            } else {
                None
            },
        }),
        gitops: None,
    }
}

fn query(action: Option<&str>, namespace: Option<&str>, token: Option<&str>) -> CallbackQuery {
    CallbackQuery {
        action: action.map(|s| s.to_string()),
        namespace: namespace.map(|s| s.to_string()),
        token: token.map(|s| s.to_string()),
    }
}

fn reply(step: CallbackStep) -> (u16, String) {
    match step {
        CallbackStep::Reply { status, body } => (status, body),
        _ => panic!("expected a reply"),
    }
}

#[test]
fn failure_message_names_the_operation() {
    assert_eq!(failure_message("get workloads", "db locked"), "Failed to get workloads: db locked");
}

#[test]
fn callback_with_wrong_token_is_unauthorized() {
    let (mut cb, first) = NtfyCallback::start(query(Some("web"), None, Some("bad")));
    assert!(matches!(first, CallbackStep::LoadSettings));
    assert_eq!(reply(cb.on_settings(Some(settings(Some("good"), true)))), (401, "Unauthorized".to_string()));
    let (mut cb, _) = NtfyCallback::start(query(Some("web"), None, None));
    assert_eq!(reply(cb.on_settings(Some(settings(Some("good"), true)))), (401, "Unauthorized".to_string()));
}

#[test]
fn callback_without_configured_token_passes() {
    let (mut cb, _) = NtfyCallback::start(query(Some("web"), Some("apps"), Some("anything")));
    match cb.on_settings(None) {
        CallbackStep::LookupWorkload { name, namespace } => {
            assert_eq!(name, "web");
            assert_eq!(namespace, "apps");
        },
        _ => panic!("expected a lookup"),
    }
}

#[test]
fn callback_without_action_is_answered() {
    let (mut cb, _) = NtfyCallback::start(query(None, None, Some("good")));
    assert_eq!(
        reply(cb.on_settings(Some(settings(Some("good"), true)))),
        (200, "No action parameter provided".to_string())
    );
}

#[test]
fn callback_upgrades_and_schedules_rescan() {
    let (mut cb, _) = NtfyCallback::start(query(Some("web"), None, Some("good")));
    match cb.on_settings(Some(settings(Some("good"), true))) {
        CallbackStep::LookupWorkload { name, namespace } => {
            assert_eq!(name, "web");
            assert_eq!(namespace, "default");
        },
        _ => panic!("expected a lookup"),
    }
    assert!(matches!(cb.on_lookup(true), CallbackStep::RunGitops));
    assert!(matches!(cb.on_gitops(Ok(())), CallbackStep::NotifyCommit));
    assert!(matches!(cb.on_notified(), CallbackStep::LoadRescanSettings));
    match cb.on_rescan_settings(Some(settings(None, true))) {
        CallbackStep::ScheduleRescan { delay } => assert_eq!(delay, "5m"),
        _ => panic!("expected a rescan"),
    }
    assert_eq!(reply(cb.on_rescan_scheduled()), (200, "Upgrade initiated for web".to_string()));
}

#[test]
fn callback_reports_missing_workload_and_failed_upgrade() {
    let (mut cb, _) = NtfyCallback::start(query(Some("web"), None, None));
    cb.on_settings(None);
    assert_eq!(reply(cb.on_lookup(false)), (200, "Workload web not found".to_string()));

    let (mut cb, _) = NtfyCallback::start(query(Some("web"), None, None));
    cb.on_settings(None);
    cb.on_lookup(true);
    assert_eq!(
        reply(cb.on_gitops(Err("push rejected".to_string()))),
        (200, "Upgrade failed for web: push rejected".to_string())
    );
}

#[test]
fn callback_without_ntfy_settings_skips_rescan() {
    let (mut cb, _) = NtfyCallback::start(query(Some("web"), None, None));
    cb.on_settings(Some(settings(None, false)));
    cb.on_lookup(true);
    cb.on_gitops(Ok(()));
    cb.on_notified();
    assert_eq!(reply(cb.on_rescan_settings(None)), (200, "Upgrade initiated for web".to_string()));
}

#[test]
fn without_configured_token_the_token_does_not_matter() {
    for s in [None, Some(settings(None, true)), Some(settings(None, false))] {
        for token in [None, Some(""), Some("anything")] {
            let (mut cb, _) = NtfyCallback::start(query(Some("web"), Some("prod"), token));
            match cb.on_settings(s.clone()) {
                CallbackStep::LookupWorkload { name, namespace } => {
                    assert_eq!(name, "web");
                    assert_eq!(namespace, "prod");
                }
                _ => panic!("expected the workload lookup"),
            }
        }
    }
}

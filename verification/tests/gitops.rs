use slackwatch::gitops::edit::{
    base_image, has_yaml_extension, join, new_image, retarget_images, search_path,
};
use slackwatch::gitops::load_settings;
use slackwatch::gitops::run::{GitAction, GitEvent, GitRun, GitStep};
use slackwatch::gitops::yaml::{
    fix_octal_strings, octal_string_number, parse_octal_i64, YamlNumber, YamlValue,
};
use slackwatch::models::{GitopsConfig, Settings, System, UpdateStatus, Workload};

fn workload(name: &str, repo: Option<&str>, dir: Option<&str>) -> Workload {
    Workload {
        name: name.to_string(),
        exclude_pattern: None,
        git_ops_repo: repo.map(|r| r.to_string()),
        include_pattern: None,
        update_available: UpdateStatus::Available,
        git_directory: dir.map(|d| d.to_string()),
        image: "docker.io/library/nginx:1.25".to_string(),
        last_scanned: "2026-09-21T00:00:00Z".to_string(),
        namespace: "default".to_string(),
        current_version: "1.25".to_string(),
        latest_version: "1.27".to_string(),
        scan_exhausted: "False".to_string(),
        error: None,
    }
}

fn config(name: &str) -> GitopsConfig {
    GitopsConfig {
        name: name.to_string(),
        repository_url: format!("https://git.example.com/{}.git", name),
        access_token_env_name: format!("{}_TOKEN", name.to_uppercase()),
        commit_message: "Update image".to_string(),
        commit_name: "SlackWatch".to_string(),
        commit_email: "bot@example.com".to_string(),
    }
}

fn number_of(v: &YamlValue) -> Option<i128> {
    match v {
        YamlValue::Number(YamlNumber::PosInt(u)) => Some(*u as i128),
        YamlValue::Number(YamlNumber::NegInt(i)) => Some(*i as i128),
        _ => None,
    }
}

fn string_of(v: &YamlValue) -> Option<&str> {
    match v {
        YamlValue::String(s) => Some(s.as_str()),
        _ => None,
    }
}

#[test]
fn octal_strings_become_numbers() {
    let fixed = fix_octal_strings(YamlValue::String("0644".to_string()));
    assert_eq!(number_of(&fixed), Some(420));
    let fixed = fix_octal_strings(YamlValue::String("0o755".to_string()));
    assert_eq!(number_of(&fixed), Some(493));
    let fixed = fix_octal_strings(YamlValue::String("0o-17".to_string()));
    assert_eq!(number_of(&fixed), Some(-15));
    let fixed = fix_octal_strings(YamlValue::String("00".to_string()));
    assert_eq!(number_of(&fixed), Some(0));
}

#[test]
fn non_octal_strings_stay_strings() {
    for s in ["089", "0", "0x10", "0o", "0o8", "644", "0644a", "", "hello", "0o+"] {
        let fixed = fix_octal_strings(YamlValue::String(s.to_string()));
        assert_eq!(string_of(&fixed), Some(s), "{}", s);
    }
}

#[test]
fn octal_parsing_follows_from_str_radix() {
    assert_eq!(parse_octal_i64("777"), Some(511));
    assert_eq!(parse_octal_i64("+10"), Some(8));
    assert_eq!(parse_octal_i64("-10"), Some(-8));
    assert_eq!(parse_octal_i64("-"), None);
    assert_eq!(parse_octal_i64(""), None);
    assert_eq!(parse_octal_i64("8"), None);
    assert_eq!(parse_octal_i64("777777777777777777777"), Some(i64::MAX));
    assert_eq!(parse_octal_i64("1000000000000000000000"), None);
    assert_eq!(parse_octal_i64("-1000000000000000000000"), Some(i64::MIN));
    assert_eq!(parse_octal_i64("-1000000000000000000001"), None);
    for s in ["17", "-17", "+0", "0", "7777777", "12x"] {
        assert_eq!(parse_octal_i64(s), i64::from_str_radix(s, 8).ok(), "{}", s);
    }
    assert_eq!(octal_string_number("0o17"), Some(15));
    assert_eq!(octal_string_number("017"), Some(15));
    assert_eq!(octal_string_number("018"), None);
}

#[test]
fn octal_fix_reaches_nested_values_but_not_keys() {
    let doc = YamlValue::Mapping(vec![
        (
            YamlValue::String("0644".to_string()),
            YamlValue::Sequence(vec![
                YamlValue::String("0600".to_string()),
                YamlValue::Bool(true),
                YamlValue::Tagged("!mode".to_string(), Box::new(YamlValue::String("0o7".to_string()))),
            ]),
        ),
        (YamlValue::String("name".to_string()), YamlValue::String("app".to_string())),
        (YamlValue::Null, YamlValue::Number(YamlNumber::PosInt(3))),
    ]);
    let fixed = fix_octal_strings(doc);
    match fixed {
        YamlValue::Mapping(kvs) => {
            assert_eq!(kvs.len(), 3);
            assert_eq!(string_of(&kvs[0].0), Some("0644"));
            match &kvs[0].1 {
                YamlValue::Sequence(xs) => {
                    assert_eq!(number_of(&xs[0]), Some(384));
                    assert!(matches!(xs[1], YamlValue::Bool(true)));
                    match &xs[2] {
                        YamlValue::Tagged(tag, inner) => {
                            assert_eq!(tag, "!mode");
                            assert_eq!(number_of(inner), Some(7));
                        },
                        _ => panic!("tag lost"),
                    }
                },
                _ => panic!("sequence lost"),
            }
            assert_eq!(string_of(&kvs[1].1), Some("app"));
            assert!(matches!(kvs[2].0, YamlValue::Null));
            assert_eq!(number_of(&kvs[2].1), Some(3));
        },
        _ => panic!("mapping lost"),
    }
}

#[test]
fn base_image_is_text_before_first_colon() {
    assert_eq!(base_image("nginx:1.25"), "nginx");
    assert_eq!(base_image("docker.io/library/nginx:1.25"), "docker.io/library/nginx");
    assert_eq!(base_image("registry:5000/app:1.0"), "registry");
    assert_eq!(base_image("nginx"), "nginx");
    assert_eq!(base_image(":tag"), "");
    assert_eq!(new_image("nginx", "1.27"), "nginx:1.27");
}

#[test]
fn retarget_replaces_only_matching_images() {
    let images = vec![
        Some("docker.io/library/nginx:1.25".to_string()),
        Some("redis:7".to_string()),
        None,
    ];
    let (out, updated) = retarget_images(images, "docker.io/library/nginx", "docker.io/library/nginx:1.27");
    assert!(updated);
    assert_eq!(out[0].as_deref(), Some("docker.io/library/nginx:1.27"));
    assert_eq!(out[1].as_deref(), Some("redis:7"));
    assert_eq!(out[2], None);

    let (out, updated) = retarget_images(vec![Some("redis:7".to_string())], "nginx", "nginx:2");
    assert!(!updated);
    assert_eq!(out[0].as_deref(), Some("redis:7"));

    // an empty base matches every container, even one without an image
    let (out, updated) = retarget_images(vec![None], "", ":2");
    assert!(updated);
    assert_eq!(out[0].as_deref(), Some(":2"));
}

#[test]
fn yaml_extension_follows_path_extension() {
    assert!(has_yaml_extension("deployment.yaml"));
    assert!(has_yaml_extension("a.b.yaml"));
    assert!(!has_yaml_extension(".yaml"));
    assert!(!has_yaml_extension("deployment.yml"));
    assert!(!has_yaml_extension("yaml"));
    assert!(!has_yaml_extension("deployment.yaml.bak"));
    assert!(!has_yaml_extension(".."));
    assert!(!has_yaml_extension(""));
}

#[test]
fn join_follows_path_join() {
    for (base, part) in [("/tmp/repos/", "app"), ("/tmp/repos", "app"), ("/tmp", "/etc"), ("", "x"), ("a", "")] {
        let expected = std::path::Path::new(base).join(part);
        assert_eq!(join(base, part), expected.to_str().unwrap(), "{} {}", base, part);
    }
}

#[test]
fn search_path_uses_git_directory_or_name() {
    assert_eq!(search_path("/tmp/repos/infra", &workload("web", None, Some("apps/web"))), "/tmp/repos/infra/apps/web");
    assert_eq!(search_path("/tmp/repos/infra", &workload("web", None, Some(""))), "/tmp/repos/infra/web");
    assert_eq!(search_path("/tmp/repos/infra", &workload("web", None, None)), "/tmp/repos/infra/web");
}

#[test]
fn gitops_load_settings_reports_missing_section() {
    let settings = Settings {
        system: System { schedule: "0 0 * * * *".to_string(), data_dir: "/tmp".to_string() },
        notifications: None,
        gitops: None,
    };
    match load_settings(settings.clone()) {
        Err(e) => assert_eq!(e, "No Gitops Config Found"),
        Ok(_) => panic!("expected an error"),
    }
    let mut with = settings;
    with.gitops = Some(vec![config("infra")]);
    assert_eq!(load_settings(with).unwrap()[0].name, "infra");
}

fn expect_step(a: GitAction) -> GitStep {
    match a {
        GitAction::Perform(s) => s,
        GitAction::Finish(r) => panic!("run finished early: {:?}", r),
    }
}

#[test]
fn git_run_walks_the_steps_of_the_selected_repository() {
    let configs = vec![config("other"), config("infra")];
    let w = workload("web", Some("infra"), None);
    let (mut run, first) = GitRun::start(configs, &w);
    match expect_step(first) {
        GitStep::ReadAccessToken { env_name } => assert_eq!(env_name, "INFRA_TOKEN"),
        _ => panic!("expected the token step"),
    }
    match expect_step(run.advance(GitEvent::AccessToken("tok".to_string()))) {
        GitStep::RemoveLocalRepos { path } => assert_eq!(path, "/tmp/repos/"),
        _ => panic!("expected the cleanup step"),
    }
    match expect_step(run.advance(GitEvent::Done)) {
        GitStep::CloneOrOpen { repository_url, local_path, access_token } => {
            assert_eq!(repository_url, "https://git.example.com/infra.git");
            assert_eq!(local_path, "/tmp/repos/infra");
            assert_eq!(access_token, "tok");
        },
        _ => panic!("expected the clone step"),
    }
    match expect_step(run.advance(GitEvent::Done)) {
        GitStep::EditFiles { local_path } => assert_eq!(local_path, "/tmp/repos/infra"),
        _ => panic!("expected the edit step"),
    }
    assert!(matches!(expect_step(run.advance(GitEvent::Done)), GitStep::Stage));
    match expect_step(run.advance(GitEvent::Done)) {
        GitStep::Commit { message, name, email } => {
            assert_eq!(message, "Update image");
            assert_eq!(name, "SlackWatch");
            assert_eq!(email, "bot@example.com");
        },
        _ => panic!("expected the commit step"),
    }
    match expect_step(run.advance(GitEvent::Done)) {
        GitStep::Push { access_token } => assert_eq!(access_token, "tok"),
        _ => panic!("expected the push step"),
    }
    assert!(matches!(expect_step(run.advance(GitEvent::Done)), GitStep::NotifyCommit));
    assert!(matches!(run.advance(GitEvent::Done), GitAction::Finish(Ok(()))));
}

#[test]
fn git_run_stops_at_the_first_failure() {
    let (mut run, first) = GitRun::start(vec![config("infra"), config("infra")], &workload("web", Some("infra"), None));
    assert!(matches!(first, GitAction::Perform(GitStep::ReadAccessToken { .. })));
    assert!(matches!(run.advance(GitEvent::AccessToken(String::new())), GitAction::Perform(GitStep::RemoveLocalRepos { .. })));
    match run.advance(GitEvent::Failed("clone failed".to_string())) {
        GitAction::Finish(Err(e)) => assert_eq!(e, "clone failed"),
        _ => panic!("expected the run to end"),
    }
}

#[test]
fn git_run_without_matching_repository_succeeds_at_once() {
    let (_, first) = GitRun::start(vec![config("a"), config("b")], &workload("web", Some("c"), None));
    assert!(matches!(first, GitAction::Finish(Ok(()))));
    // no GitOps repository on the workload matches only a repository named ""
    let (_, first) = GitRun::start(vec![config("a")], &workload("web", None, None));
    assert!(matches!(first, GitAction::Finish(Ok(()))));
    let (_, first) = GitRun::start(vec![config("")], &workload("web", None, None));
    assert!(matches!(first, GitAction::Perform(GitStep::ReadAccessToken { .. })));
}

#[test]
fn git_run_moves_on_to_the_next_selected_repository() {
    let configs = vec![config("infra"), config("other"), config("infra")];
    let (mut run, _) = GitRun::start(configs, &workload("web", Some("infra"), None));
    run.advance(GitEvent::AccessToken("first".to_string()));
    for _ in 0..6 {
        run.advance(GitEvent::Done);
    }
    // after the eighth step of the first repository the third one starts
    assert!(matches!(run.advance(GitEvent::Done), GitAction::Perform(GitStep::ReadAccessToken { .. })));
    run.advance(GitEvent::AccessToken("second".to_string()));
    match expect_step(run.advance(GitEvent::Done)) {
        GitStep::CloneOrOpen { access_token, .. } => assert_eq!(access_token, "second"),
        _ => panic!("expected the clone step"),
    }
}

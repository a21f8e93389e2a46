use slackwatch::gitops::manifest::{plan_rewrites, rewrite_manifest};
use slackwatch::gitops::yaml::{fix_octal_strings, YamlNumber, YamlValue};

const DEPLOYMENT: &str = "apiVersion: apps/v1
kind: Deployment
metadata:
  name: web
spec:
  selector:
    matchLabels:
      app: web
  template:
    metadata:
      labels:
        app: web
    spec:
      containers:
      - name: web
        image: docker.io/library/nginx:1.24
      - name: cache
        image: redis:7
      volumes:
      - name: config
        secret:
          secretName: web-config
          defaultMode: \"0644\"
";

const STATEFULSET: &str = "apiVersion: apps/v1
kind: StatefulSet
metadata:
  name: db
spec:
  serviceName: db
  selector:
    matchLabels:
      app: db
  template:
    metadata:
      labels:
        app: db
    spec:
      containers:
      - name: db
        image: docker.io/library/nginx:1.24
";

fn images(v: &[Option<&str>]) -> Vec<Option<String>> {
    v.iter().map(|i| i.map(|s| s.to_string())).collect()
}

#[test]
fn deployment_manifest_is_rewritten_with_new_image() {
    let writes = rewrite_manifest(DEPLOYMENT, "docker.io/library/nginx", "docker.io/library/nginx:1.25");
    assert_eq!(writes.len(), 1);
    let text = writes[0].as_ref().expect("written");
    assert!(text.contains("image: docker.io/library/nginx:1.25"), "{}", text);
    assert!(!text.contains("nginx:1.24"), "{}", text);
    assert!(text.contains("image: redis:7"), "{}", text);
    assert!(text.contains("kind: Deployment"), "{}", text);
    // The octal file mode string was read as the number 0644 = 420.
    assert!(text.contains("defaultMode: 420"), "{}", text);
}

#[test]
fn statefulset_manifest_is_rewritten_once() {
    let writes = rewrite_manifest(STATEFULSET, "docker.io/library/nginx", "docker.io/library/nginx:1.25");
    assert_eq!(writes.len(), 1);
    let text = writes[0].as_ref().expect("written");
    assert!(text.contains("kind: StatefulSet"), "{}", text);
    assert!(text.contains("image: docker.io/library/nginx:1.25"), "{}", text);
}

#[test]
fn manifest_without_the_image_is_left_alone() {
    assert!(rewrite_manifest(DEPLOYMENT, "docker.io/library/postgres", "docker.io/library/postgres:16").is_empty());
}

#[test]
fn manifest_that_is_no_workload_is_left_alone() {
    assert!(rewrite_manifest("key: [unclosed", "nginx", "nginx:1.25").is_empty());
    assert!(rewrite_manifest("apiVersion: v1\nkind: ConfigMap\ndata:\n  a: nginx\n", "nginx", "nginx:1.25").is_empty());
}

#[test]
fn plan_writes_only_matching_deployment() {
    let p = plan_rewrites(None, Some(Some(images(&[Some("nginx:1.0"), Some("redis:7"), None]))), "nginx", "nginx:1.25");
    assert_eq!(p.statefulset, None);
    assert_eq!(p.deployment, Some(images(&[Some("nginx:1.25"), Some("redis:7"), None])));
    let p = plan_rewrites(None, Some(Some(images(&[Some("redis:7")]))), "nginx", "nginx:1.25");
    assert_eq!(p.deployment, None);
}

#[test]
fn plan_carries_statefulset_write_to_deployment() {
    let p = plan_rewrites(
        Some(Some(images(&[Some("nginx:1.0")]))),
        Some(Some(images(&[Some("redis:7")]))),
        "nginx",
        "nginx:1.25",
    );
    assert_eq!(p.statefulset, Some(images(&[Some("nginx:1.25")])));
    assert_eq!(p.deployment, Some(images(&[Some("redis:7")])));
    let p = plan_rewrites(Some(Some(images(&[Some("nginx:1.0")]))), Some(None), "nginx", "nginx:1.25");
    assert_eq!(p.deployment, Some(vec![]));
    let p = plan_rewrites(Some(None), Some(None), "nginx", "nginx:1.25");
    assert_eq!(p.statefulset, None);
    assert_eq!(p.deployment, None);
}

fn number_of(v: &YamlValue) -> Option<i128> {
    match v {
        YamlValue::Number(YamlNumber::PosInt(u)) => Some(*u as i128),
        YamlValue::Number(YamlNumber::NegInt(i)) => Some(*i as i128),
        _ => None,
    }
}

#[test]
fn second_octal_repair_changes_nothing() {
    for s in ["0644", "0o755", "hello", "08", "0"] {
        let once = fix_octal_strings(YamlValue::String(s.to_string()));
        let twice = fix_octal_strings(fix_octal_strings(YamlValue::String(s.to_string())));
        match (&once, &twice) {
            (YamlValue::String(a), YamlValue::String(b)) => assert_eq!(a, b),
            _ => assert_eq!(number_of(&once), number_of(&twice)),
        }
        assert!(number_of(&once).is_some() || matches!(once, YamlValue::String(_)));
    }
}

use k8pk::kubeconfig::{KubeConfig, NamedItem};
use k8pk::picker::{chosen_name, cluster_choices, cluster_pick, context_choices, preferred_namespace};
use k8pk::yaml::{YamlEntry, YamlValue};

fn yaml_value(v: &serde_yaml_ng::Value) -> YamlValue {
    match v {
        serde_yaml_ng::Value::Null => YamlValue::Null,
        serde_yaml_ng::Value::Bool(b) => YamlValue::Bool(*b),
        serde_yaml_ng::Value::Number(n) => YamlValue::Number(n.to_string()),
        serde_yaml_ng::Value::String(s) => YamlValue::Str(s.clone()),
        serde_yaml_ng::Value::Sequence(items) => YamlValue::Sequence(items.iter().map(yaml_value).collect()),
        serde_yaml_ng::Value::Mapping(m) => YamlValue::Mapping(
            m.iter()
                .map(|(k, v)| YamlEntry { key: yaml_value(k), value: yaml_value(v) })
                .collect(),
        ),
        serde_yaml_ng::Value::Tagged(t) => {
            YamlValue::Tagged(t.tag.to_string(), Box::new(yaml_value(&t.value)))
        }
    }
}

fn named_items(v: Option<&serde_yaml_ng::Value>) -> Vec<NamedItem> {
    let mut out = Vec::new();
    if let Some(serde_yaml_ng::Value::Sequence(items)) = v {
        for item in items {
            if let serde_yaml_ng::Value::Mapping(m) = item {
                let name = m
                    .get("name")
                    .and_then(|n| n.as_str())
                    .unwrap_or_default()
                    .to_string();
                let rest = m
                    .iter()
                    .filter(|(k, _)| k.as_str() != Some("name"))
                    .map(|(k, v)| YamlEntry { key: yaml_value(k), value: yaml_value(v) })
                    .collect();
                out.push(NamedItem { name, rest: YamlValue::Mapping(rest) });
            }
        }
    }
    out
}

fn parse_kubeconfig(text: &str) -> KubeConfig {
    let v: serde_yaml_ng::Value = serde_yaml_ng::from_str(text).unwrap();
    let m = v.as_mapping().unwrap();
    let s = |k: &str| m.get(k).and_then(|x| x.as_str()).map(|x| x.to_string());
    KubeConfig {
        api_version: s("apiVersion"),
        kind: s("kind"),
        preferences: m.get("preferences").map(yaml_value),
        clusters: named_items(m.get("clusters")),
        current_context: s("current-context"),
        contexts: named_items(m.get("contexts")),
        users: named_items(m.get("users")),
        extensions: m.get("extensions").map(yaml_value),
    }
}

const PICKER_YAML: &str = r#"
apiVersion: v1
kind: Config
clusters:
  - name: c-prod
    cluster:
      server: https://api.prod.example.com:6443
  - name: c-dev
    cluster:
      server: https://api.dev.example.com:6443
contexts:
  - name: prod-admin
    context:
      cluster: c-prod
      user: u
  - name: dev
    context:
      cluster: c-dev
      user: u
      namespace: team-a
  - name: prod-admin
    context:
      cluster: c-prod
      user: u
users:
  - name: u
    user:
      token: t
current-context: dev
"#;

#[test]
fn context_choices_dedup_and_mark_current() {
    let cfg = parse_kubeconfig(PICKER_YAML);
    let labels = context_choices(&cfg).unwrap();
    assert_eq!(labels, vec!["prod-admin".to_string(), "dev *".to_string()]);
    assert_eq!(chosen_name("dev *"), "dev");
    assert_eq!(chosen_name("prod-admin"), "prod-admin");
}

#[test]
fn context_choices_empty_is_no_contexts() {
    let cfg = parse_kubeconfig("apiVersion: v1\nkind: Config\n");
    assert!(matches!(context_choices(&cfg), Err(k8pk::error::K8pkError::NoContexts)));
}

#[test]
fn cluster_choices_sorted_and_pick() {
    let cfg = parse_kubeconfig(PICKER_YAML);
    let ch = cluster_choices(&cfg).unwrap();
    assert_eq!(ch.keys.len(), ch.labels.len());
    let mut sorted = ch.keys.clone();
    sorted.sort();
    assert_eq!(ch.keys, sorted);
    for (k, l) in ch.keys.iter().zip(ch.labels.iter()) {
        assert!(l == k || *l == format!("{} *", k));
        let (ctx, ns) = cluster_pick(&cfg, k).unwrap();
        assert!(ctx == "prod-admin" || ctx == "dev");
        if ctx == "dev" {
            assert_eq!(ns.as_deref(), Some("team-a"));
        }
    }
    assert!(cluster_pick(&cfg, "no-such-cluster").is_none());
}

#[test]
fn preferred_namespace_prefers_default() {
    let v = vec!["kube-system".to_string(), "default".to_string()];
    assert_eq!(preferred_namespace(&v).as_deref(), Some("default"));
    let w = vec!["b".to_string(), "a".to_string()];
    assert_eq!(preferred_namespace(&w).as_deref(), Some("b"));
    assert_eq!(preferred_namespace(&Vec::new()), None);
}

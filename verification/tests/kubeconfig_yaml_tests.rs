use k8pk::kubeconfig::{cluster_insecure_for_context, prune_to_context, server_for_context, set_cluster_insecure, set_context_namespace, KubeConfig, NamedItem};
use k8pk::kubeconfig_ops::{diff_files, merge_files, remove_contexts_from_file};
use k8pk::organize::organize_by_cluster_type;
use k8pk::yaml::{YamlEntry, YamlValue};

fn yaml_value(v: &serde_yaml_ng::Value) -> YamlValue {
    match v {
        serde_yaml_ng::Value::Null => YamlValue::Null,
        serde_yaml_ng::Value::Bool(b) => YamlValue::Bool(*b),
        serde_yaml_ng::Value::Number(n) => YamlValue::Number(n.to_string()),
        serde_yaml_ng::Value::String(s) => YamlValue::Str(s.clone()),
        serde_yaml_ng::Value::Sequence(items) => YamlValue::Sequence(items.iter().map(yaml_value).collect()),
        serde_yaml_ng::Value::Mapping(m) => YamlValue::Mapping(
            m.iter()
                .map(|(k, v)| YamlEntry { key: yaml_value(k), value: yaml_value(v) })
                .collect(),
        ),
        serde_yaml_ng::Value::Tagged(t) => {
            YamlValue::Tagged(t.tag.to_string(), Box::new(yaml_value(&t.value)))
        }
    }
}

fn named_items(v: Option<&serde_yaml_ng::Value>) -> Vec<NamedItem> {
    let mut out = Vec::new();
    if let Some(serde_yaml_ng::Value::Sequence(items)) = v {
        for item in items {
            if let serde_yaml_ng::Value::Mapping(m) = item {
                let name = m
                    .get("name")
                    .and_then(|n| n.as_str())
                    .unwrap_or_default()
                    .to_string();
                let rest = m
                    .iter()
                    .filter(|(k, _)| k.as_str() != Some("name"))
                    .map(|(k, v)| YamlEntry { key: yaml_value(k), value: yaml_value(v) })
                    .collect();
                out.push(NamedItem { name, rest: YamlValue::Mapping(rest) });
            }
        }
    }
    out
}

fn parse_kubeconfig(text: &str) -> KubeConfig {
    let v: serde_yaml_ng::Value = serde_yaml_ng::from_str(text).unwrap();
    let m = v.as_mapping().unwrap();
    let s = |k: &str| m.get(k).and_then(|x| x.as_str()).map(|x| x.to_string());
    KubeConfig {
        api_version: s("apiVersion"),
        kind: s("kind"),
        preferences: m.get("preferences").map(yaml_value),
        clusters: named_items(m.get("clusters")),
        current_context: s("current-context"),
        contexts: named_items(m.get("contexts")),
        users: named_items(m.get("users")),
        extensions: m.get("extensions").map(yaml_value),
    }
}

const KUBECONFIG_A: &str = r#"
apiVersion: v1
kind: Config
clusters:
  - name: cluster-a
    cluster:
      server: https://a.example.com
contexts:
  - name: ctx-a
    context:
      cluster: cluster-a
      user: user-a
users:
  - name: user-a
    user:
      token: token-a
current-context: ctx-a
"#;

const KUBECONFIG_B: &str = r#"
apiVersion: v1
kind: Config
clusters:
  - name: cluster-b
    cluster:
      server: https://b.example.com
contexts:
  - name: ctx-b
    context:
      cluster: cluster-b
      user: user-b
users:
  - name: user-b
    user:
      token: token-b
current-context: ctx-b
"#;

#[test]
fn test_kubeconfig_parse() {
    let yaml = r#"
apiVersion: v1
kind: Config
clusters:
  - name: dev
    cluster:
      server: https://dev.example.com:6443
contexts:
  - name: dev
    context:
      cluster: dev
      user: dev-user
users:
  - name: dev-user
    user:
      token: abc123
current-context: dev
"#;
    let config: KubeConfig = parse_kubeconfig(yaml);
    assert_eq!(config.context_names(), vec!["dev".to_string()]);
    assert_eq!(config.current_context, Some("dev".to_string()));
    assert!(config.find_context("dev").is_some());
    assert!(config.find_cluster("dev").is_some());
    assert!(config.find_user("dev-user").is_some());
}

#[test]
fn test_kubeconfig_context_names() {
    let cfg: KubeConfig = parse_kubeconfig(
        r#"
apiVersion: v1
kind: Config
contexts:
  - name: ctx1
    context:
      cluster: cluster1
  - name: ctx2
    context:
      cluster: cluster2
clusters:
  - name: cluster1
    cluster:
      server: https://cluster1.example.com
  - name: cluster2
    cluster:
      server: https://cluster2.example.com
users:
  - name: user1
"#,
    );

    let names = cfg.context_names();
    assert_eq!(names.len(), 2);
    assert!(names.contains(&"ctx1".to_string()));
    assert!(names.contains(&"ctx2".to_string()));
    assert_eq!(cfg.clusters.len(), 2);
}

#[test]
fn test_kubeconfig_find_methods() {
    let cfg: KubeConfig = parse_kubeconfig(
        r#"
apiVersion: v1
kind: Config
contexts:
  - name: dev
    context:
      cluster: dev-cluster
      user: dev-user
clusters:
  - name: dev-cluster
    cluster:
      server: https://dev.example.com
users:
  - name: dev-user
    user:
      token: secret
"#,
    );

    assert!(cfg.find_context("dev").is_some());
    assert!(cfg.find_context("nonexistent").is_none());
    assert!(cfg.find_cluster("dev-cluster").is_some());
    assert!(cfg.find_user("dev-user").is_some());
}

#[test]
fn test_merge_files_no_output() {
    let files = vec!["a.yaml".to_string(), "b.yaml".to_string()];
    let cfgs = vec![parse_kubeconfig(KUBECONFIG_A), parse_kubeconfig(KUBECONFIG_B)];
    let merged = merge_files(&files, &cfgs, false).unwrap();
    assert_eq!(merged.contexts.len(), 2);
    assert_eq!(merged.clusters.len(), 2);
    assert_eq!(merged.users.len(), 2);
    // First-wins for current-context
    assert_eq!(merged.current_context, Some("ctx-a".to_string()));
}

#[test]
fn test_merge_empty_list() {
    let result = merge_files(&[], &[], false);
    assert!(result.is_err());
}

#[test]
fn test_diff_files() {
    let cfg_a = parse_kubeconfig(KUBECONFIG_A);
    let cfg_b = parse_kubeconfig(KUBECONFIG_B);
    let result = diff_files("a.yaml", "b.yaml", &cfg_a, &cfg_b, false);
    // Each file has unique contexts
    assert!(result.only_in_1.contains(&"ctx-a".to_string()));
    assert!(result.only_in_2.contains(&"ctx-b".to_string()));
}

#[test]
fn test_remove_contexts_dry_run() {
    let mut cfg = parse_kubeconfig(KUBECONFIG_A);
    let result = remove_contexts_from_file(
        "test.yaml",
        &mut cfg,
        &["ctx-a".to_string()],
        false, // remove_orphans
        true,  // dry_run
    );

    assert!(result.dry_run);
    assert!(result.removed_contexts.contains(&"ctx-a".to_string()));

    // Unchanged (dry run)
    assert!(cfg.find_context("ctx-a").is_some());
}

#[test]
fn test_remove_contexts_actual() {
    let mut cfg = parse_kubeconfig(KUBECONFIG_A);
    let result = remove_contexts_from_file(
        "test.yaml",
        &mut cfg,
        &["ctx-a".to_string()],
        true,  // remove_orphans
        false, // dry_run
    );

    assert!(!result.dry_run);
    assert!(result.removed_contexts.contains(&"ctx-a".to_string()));
    assert!(cfg.find_context("ctx-a").is_none());
    assert_eq!(result.removed_clusters, vec!["cluster-a".to_string()]);
    assert_eq!(result.removed_users, vec!["user-a".to_string()]);
}

fn mk_context(name: &str, cluster: &str, user: &str) -> NamedItem {
    let inner = vec![
        YamlEntry { key: YamlValue::Str("cluster".into()), value: YamlValue::Str(cluster.into()) },
        YamlEntry { key: YamlValue::Str("user".into()), value: YamlValue::Str(user.into()) },
    ];
    let map = vec![YamlEntry { key: YamlValue::Str("context".into()), value: YamlValue::Mapping(inner) }];
    NamedItem { name: name.to_string(), rest: YamlValue::Mapping(map) }
}

fn mk_named(name: &str) -> NamedItem {
    NamedItem { name: name.to_string(), rest: YamlValue::Mapping(Vec::new()) }
}

#[test]
fn test_extract_ctx_refs() {
    let ctx = mk_context("dev", "c1", "u1");
    let (c, u) = k8pk::kubeconfig::extract_context_refs(&ctx.rest).unwrap();
    assert_eq!(c, "c1");
    assert_eq!(u, "u1");
}

#[test]
fn test_set_context_namespace() {
    let mut cfg = KubeConfig::default();
    cfg.contexts.push(mk_context("dev", "c1", "u1"));
    set_context_namespace(&mut cfg, "dev", "ns1").unwrap();
    let ctx = cfg.contexts.iter().find(|c| c.name == "dev").unwrap();
    let YamlValue::Mapping(map) = &ctx.rest else { panic!("expected mapping"); };
    let inner = map
        .iter()
        .find(|e| matches!(&e.key, YamlValue::Str(s) if s == "context"))
        .map(|e| &e.value);
    let Some(YamlValue::Mapping(inner)) = inner else { panic!("missing context"); };
    let ns = inner
        .iter()
        .find(|e| matches!(&e.key, YamlValue::Str(s) if s == "namespace"))
        .map(|e| &e.value);
    assert!(matches!(ns, Some(YamlValue::Str(s)) if s == "ns1"));
}

#[test]
fn test_prune_to_context() {
    let mut cfg = KubeConfig::default();
    cfg.contexts.push(mk_context("dev", "c1", "u1"));
    cfg.contexts.push(mk_context("stg", "c2", "u2"));
    cfg.clusters.push(mk_named("c1"));
    cfg.clusters.push(mk_named("c2"));
    cfg.users.push(mk_named("u1"));
    cfg.users.push(mk_named("u2"));
    let pruned = prune_to_context(&cfg, "stg").unwrap();
    assert_eq!(pruned.contexts.len(), 1);
    assert_eq!(pruned.clusters.len(), 1);
    assert_eq!(pruned.users.len(), 1);
    assert_eq!(pruned.current_context.as_deref(), Some("stg"));
}

#[test]
fn test_join_paths_for_env() {
    let v = vec!["/a".to_string(), "/b".to_string()];
    assert_eq!(k8pk::kubeconfig::join_paths_for_env(&v), Some("/a:/b".to_string()));
    let e: Vec<String> = vec![];
    assert_eq!(k8pk::kubeconfig::join_paths_for_env(&e), None);
}

const MIXED_KUBECONFIG: &str = r#"
apiVersion: v1
kind: Config
clusters:
  - name: eks-cluster
    cluster:
      server: https://abc.eks.amazonaws.com
  - name: ocp-cluster
    cluster:
      server: https://api.ocp.example.com:6443
contexts:
  - name: arn:aws:eks:us-east-1:123:cluster/prod
    context:
      cluster: eks-cluster
      user: eks-user
  - name: admin/api-ocp-example-com:6443/admin
    context:
      cluster: ocp-cluster
      user: ocp-user
users:
  - name: eks-user
    user:
      token: eks-token
  - name: ocp-user
    user:
      token: ocp-token
"#;

#[test]
fn test_organize_dry_run() {
    let cfg = parse_kubeconfig(MIXED_KUBECONFIG);
    let plan = organize_by_cluster_type("/tmp/x/config", "/tmp/x/organized", &cfg, true, false);
    let result = &plan.result;
    assert!(result.dry_run);
    assert!(result.groups.len() >= 2, "should group into at least 2 types");
    // Nothing is to be written on a dry run
    assert!(plan.files.is_empty());
    assert!(plan.source_after.is_none());
}

#[test]
fn test_organize_creates_files() {
    let cfg = parse_kubeconfig(MIXED_KUBECONFIG);
    let plan = organize_by_cluster_type("/tmp/x/config", "/tmp/x/organized", &cfg, false, false);
    let result = &plan.result;
    assert!(!result.dry_run);
    assert!(!result.groups.is_empty());
    // Each group has a file
    assert_eq!(plan.files.len(), result.groups.len());
    for (group, file) in result.groups.iter().zip(plan.files.iter()) {
        assert!(!file.contexts.is_empty(), "missing contexts for {}", group.cluster_type);
        assert_eq!(group.output_path, format!("/tmp/x/organized/{}.yaml", group.cluster_type));
    }
}

#[test]
fn test_organize_remove_from_source() {
    let cfg = parse_kubeconfig(MIXED_KUBECONFIG);
    let plan = organize_by_cluster_type("/tmp/x/config", "/tmp/x/organized", &cfg, false, true);
    assert!(!plan.result.groups.is_empty());
    // Source is emptied
    let src = plan.source_after.expect("source should be rewritten");
    assert!(src.contexts.is_empty(), "source contexts should be cleared");
    assert!(src.clusters.is_empty(), "source clusters should be cleared");
    assert!(src.users.is_empty(), "source users should be cleared");
    assert!(src.current_context.is_none());
}

#[test]
fn organize_groups_by_type_with_refs() {
    let cfg = parse_kubeconfig(MIXED_KUBECONFIG);
    let plan = organize_by_cluster_type("/src", "/out", &cfg, false, false);
    let types: Vec<&str> = plan.result.groups.iter().map(|g| g.cluster_type.as_str()).collect();
    assert_eq!(types, vec!["eks", "ocp"]);
    assert_eq!(plan.result.groups[0].contexts, vec!["arn:aws:eks:us-east-1:123:cluster/prod".to_string()]);
    let eks = &plan.files[0];
    assert_eq!(eks.clusters.len(), 1);
    assert_eq!(eks.clusters[0].name, "eks-cluster");
    assert_eq!(eks.users.len(), 1);
    assert_eq!(eks.users[0].name, "eks-user");
    assert_eq!(eks.api_version.as_deref(), Some("v1"));
    assert_eq!(eks.kind.as_deref(), Some("Config"));
}

#[test]
fn set_cluster_insecure_flags_every_cluster() {
    let yaml = r#"
apiVersion: v1
kind: Config
clusters:
  - name: c1
    cluster:
      server: https://one.example.com
      certificate-authority-data: AAAA
  - name: c2
    cluster:
      server: https://two.example.com
contexts:
  - name: x
    context:
      cluster: c1
      user: u
users:
  - name: u
    user:
      token: t
"#;
    let mut cfg = parse_kubeconfig(yaml);
    set_cluster_insecure(&mut cfg);
    assert_eq!(cfg.clusters.len(), 2);
    for c in &cfg.clusters {
        let YamlValue::Mapping(es) = &c.rest else { panic!("not a mapping") };
        let inner = es
            .iter()
            .find(|e| matches!(&e.key, YamlValue::Str(k) if k == "cluster"))
            .map(|e| &e.value)
            .unwrap();
        let YamlValue::Mapping(fields) = inner else { panic!("not a mapping") };
        let key_of = |e: &YamlEntry| match &e.key {
            YamlValue::Str(k) => k.clone(),
            _ => String::new(),
        };
        let keys: Vec<String> = fields.iter().map(key_of).collect();
        assert!(keys.contains(&"server".to_string()));
        assert!(!keys.contains(&"certificate-authority-data".to_string()));
        let flag = fields.iter().find(|e| key_of(e) == "insecure-skip-tls-verify").unwrap();
        assert!(matches!(flag.value, YamlValue::Bool(true)));
    }
    assert_eq!(cfg.contexts.len(), 1);
}

#[test]
fn server_and_insecure_for_context() {
    let yaml = r#"
clusters:
  - name: c1
    cluster:
      server: https://one.example.com:6443
      insecure-skip-tls-verify: true
  - name: c2
    cluster:
      server: https://two.example.com
contexts:
  - name: a
    context:
      cluster: c1
      user: u
  - name: b
    context:
      cluster: c2
      user: u
users:
  - name: u
    user:
      token: t
"#;
    let cfg = parse_kubeconfig(yaml);
    assert_eq!(server_for_context(&cfg, "a").as_deref(), Some("https://one.example.com:6443"));
    assert_eq!(server_for_context(&cfg, "b").as_deref(), Some("https://two.example.com"));
    assert_eq!(server_for_context(&cfg, "zzz"), None);
    assert!(cluster_insecure_for_context(&cfg, "a"));
    assert!(!cluster_insecure_for_context(&cfg, "b"));
    assert!(!cluster_insecure_for_context(&cfg, "zzz"));
    let mut flagged = parse_kubeconfig(yaml);
    set_cluster_insecure(&mut flagged);
    assert!(cluster_insecure_for_context(&flagged, "a"));
    assert!(cluster_insecure_for_context(&flagged, "b"));
}

#[test]
fn insecure_contexts_select_by_name_or_glob() {
    let mut config = k8pk::config::K8pkConfig::default();
    assert!(!k8pk::context::is_context_insecure(&config, "lab-1"));
    config.insecure_contexts = Some(vec!["lab-*".to_string(), "exact".to_string()]);
    assert!(k8pk::context::is_context_insecure(&config, "lab-1"));
    assert!(k8pk::context::is_context_insecure(&config, "exact"));
    assert!(!k8pk::context::is_context_insecure(&config, "prod"));
    assert!(!k8pk::context::is_context_insecure(&config, "exactly"));
}

#[test]
fn isolated_kubeconfig_for_marks_insecure_only_when_asked() {
    let yaml = r#"
clusters:
  - name: c1
    cluster:
      server: https://one.example.com:6443
contexts:
  - name: a
    context:
      cluster: c1
      user: u
users:
  - name: u
    user:
      token: t
"#;
    let merged = parse_kubeconfig(yaml);
    let plain = k8pk::context::isolated_kubeconfig_for(&merged, "a", None, false).unwrap();
    assert!(!cluster_insecure_for_context(&plain, "a"));
    let flagged = k8pk::context::isolated_kubeconfig_for(&merged, "a", Some("ns"), true).unwrap();
    assert!(cluster_insecure_for_context(&flagged, "a"));
    assert_eq!(flagged.contexts.len(), 1);
    assert!(k8pk::context::isolated_kubeconfig_for(&merged, "zzz", None, true).is_err());
}

#[test]
fn merge_keeps_first_or_last_item_of_a_name() {
    let a = r#"
clusters:
  - name: shared
    cluster:
      server: https://first.example.com
contexts: []
users: []
"#;
    let b = r#"
clusters:
  - name: shared
    cluster:
      server: https://second.example.com
contexts: []
users: []
"#;
    let files = vec!["a.yaml".to_string(), "b.yaml".to_string()];
    let cfgs = vec![parse_kubeconfig(a), parse_kubeconfig(b)];
    let kept_first = merge_files(&files, &cfgs, false).unwrap();
    assert_eq!(kept_first.clusters.len(), 1);
    assert!(format!("{:?}", kept_first.clusters[0].rest).contains("first.example.com"));
    let kept_last = merge_files(&files, &cfgs, true).unwrap();
    assert_eq!(kept_last.clusters.len(), 1);
    assert!(format!("{:?}", kept_last.clusters[0].rest).contains("second.example.com"));
}

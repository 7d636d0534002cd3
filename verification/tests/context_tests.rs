use k8pk::context::{isolated_cache_dir, match_pattern, History};
use k8pk::state::CurrentState;

#[test]
fn context_test_match_pattern_exact() {
    let contexts = vec!["dev".to_string(), "prod".to_string(), "staging".to_string()];
    assert_eq!(match_pattern("dev", &contexts), vec!["dev"]);
    assert_eq!(
        match_pattern("nonexistent", &contexts),
        Vec::<String>::new()
    );
}

#[test]
fn test_match_pattern_wildcard_prefix() {
    let contexts = vec![
        "dev-cluster".to_string(),
        "dev-local".to_string(),
        "prod-cluster".to_string(),
    ];
    let matched = match_pattern("dev-*", &contexts);
    assert_eq!(matched.len(), 2);
    assert!(matched.contains(&"dev-cluster".to_string()));
    assert!(matched.contains(&"dev-local".to_string()));
}

#[test]
fn test_match_pattern_wildcard_middle() {
    let contexts = vec![
        "us-east-1-prod".to_string(),
        "us-west-2-prod".to_string(),
        "eu-west-1-dev".to_string(),
    ];
    let matched = match_pattern("us-*-prod", &contexts);
    assert_eq!(matched.len(), 2);
}

#[test]
fn test_history_struct() {
    let history = History::default();
    assert!(history.context_history.is_empty());
    assert!(history.namespace_history.is_empty());
    assert!(history.context_types.is_empty());
}

#[test]
fn test_match_pattern_case_insensitive_substring() {
    let contexts = vec![
        "production-cluster".to_string(),
        "staging-cluster".to_string(),
        "dev".to_string(),
    ];
    // Case-insensitive substring fallback
    let matched = match_pattern("Production", &contexts);
    assert_eq!(matched, vec!["production-cluster"]);
}

#[test]
fn test_match_pattern_no_match() {
    let contexts = vec!["dev".to_string(), "staging".to_string()];
    let matched = match_pattern("nonexistent", &contexts);
    assert!(matched.is_empty());
}

#[test]
fn test_isolated_cache_dir_layout() {
    let kc = "/home/u/.local/share/k8pk/myctx_default.yaml";
    let c = isolated_cache_dir(kc, "myctx");
    assert!(c.contains("cache"));
    assert!(c.contains("myctx"));
}

#[test]
fn test_history_truncation() {
    let mut history = History::default();
    for i in 0..20 {
        history.context_history.push(format!("ctx-{}", i));
    }
    // Truncate to 10 (same as MAX_HISTORY)
    history.context_history = history
        .context_history
        .into_iter()
        .rev()
        .take(10)
        .collect::<Vec<_>>()
        .into_iter()
        .rev()
        .collect();
    assert_eq!(history.context_history.len(), 10);
    assert_eq!(history.context_history[0], "ctx-10");
    assert_eq!(history.context_history[9], "ctx-19");
}

#[test]
fn default_state_depth_zero() {
    let s = CurrentState::default();
    assert_eq!(s.depth, 0);
    assert!(s.context.is_none());
    assert!(s.namespace.is_none());
    assert!(s.config_path.is_none());
}

#[test]
fn main_test_match_pattern_exact() {
    let contexts = vec!["dev".to_string(), "prod".to_string()];
    let matched = match_pattern("dev", &contexts);
    assert_eq!(matched, vec!["dev"]);
}

#[test]
fn test_match_pattern_wildcard() {
    let contexts = vec![
        "dev-cluster".to_string(),
        "dev-local".to_string(),
        "prod-cluster".to_string(),
    ];
    let matched = match_pattern("dev-*", &contexts);
    assert_eq!(matched.len(), 2);
    assert!(matched.contains(&"dev-cluster".to_string()));
    assert!(matched.contains(&"dev-local".to_string()));
}

#[test]
fn exec_command_empty_returns_error() {
    let err = k8pk::shell::split_command(&[]).unwrap_err();
    assert!(err.message().contains("no command specified"));
}

#[test]
fn exec_command_captured_empty_returns_error() {
    let err = k8pk::shell::split_command(&[]).unwrap_err();
    assert!(err.message().contains("no command specified"));
}

#[test]
fn generate_completions_unsupported_shell() {
    let err = k8pk::shell::completion_script_extra("tcsh").unwrap_err();
    assert!(err.message().contains("tcsh"));
}

#[test]
fn exact_name_wins_even_for_glob_patterns() {
    let contexts = vec!["dev-*".to_string(), "dev-a".to_string()];
    assert_eq!(k8pk::context::match_pattern("dev-*", &contexts), vec!["dev-*".to_string()]);
}

#[test]
fn eks_base_name_drops_namespace_suffix() {
    let url = Some("https://abc.eks.amazonaws.com");
    assert_eq!(k8pk::kubeconfig::extract_base_cluster_name("dev-cluster/kube-system", url), "dev-cluster");
    assert_eq!(
        k8pk::kubeconfig::extract_base_cluster_name("arn:aws:eks:us-east-1:123:cluster/prod/team-a", url),
        "prod"
    );
}

#[test]
fn recorded_history_has_no_equal_neighbours() {
    let mut history = History::default();
    for c in ["a", "a", "b", "b", "a", "c", "c"] {
        history.record(c, Some("ns"));
    }
    assert_eq!(history.context_history, vec!["c", "a", "b", "a"]);
    for w in history.context_history.windows(2) {
        assert_ne!(w[0], w[1]);
    }
    assert_eq!(history.namespace_history, vec!["ns"]);
}

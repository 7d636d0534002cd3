use k8pk::error::{closest_matches, edit_distance, K8pkError};

#[test]
fn test_edit_distance_identical() {
    assert_eq!(edit_distance("abc", "abc"), 0);
}

#[test]
fn test_edit_distance_one_char() {
    assert_eq!(edit_distance("abc", "abd"), 1);
    assert_eq!(edit_distance("abc", "abcd"), 1);
    assert_eq!(edit_distance("abc", "ab"), 1);
}

#[test]
fn test_edit_distance_empty() {
    assert_eq!(edit_distance("", "abc"), 3);
    assert_eq!(edit_distance("abc", ""), 3);
    assert_eq!(edit_distance("", ""), 0);
}

#[test]
fn test_edit_distance_multibyte_utf8() {
    assert_eq!(edit_distance("cafe", "caf\u{00e9}"), 1);
    assert_eq!(edit_distance("caf\u{00e9}", "cafe"), 1);
    assert_eq!(edit_distance("\u{00e9}", "e"), 1);
    assert_eq!(edit_distance("日本", "日本"), 0);
    assert_eq!(edit_distance("日本", "日本国"), 1);
    assert_eq!(edit_distance("你好", "您好"), 1);
}

#[test]
fn test_edit_distance_emoji() {
    assert_eq!(edit_distance("\u{1f600}", "\u{1f600}"), 0);
    assert_eq!(edit_distance("\u{1f600}", "\u{1f601}"), 1);
    assert_eq!(edit_distance("a\u{1f600}b", "ab"), 1);
}

#[test]
fn test_closest_matches_case_insensitive() {
    let candidates = vec!["prod-cluster".to_string()];
    let suggestions = closest_matches("PROD-CLUSTER", &candidates, 3);
    assert!(!suggestions.is_empty());
    assert_eq!(suggestions[0], "prod-cluster");

    let prod_only = vec!["prod".to_string()];
    let suggestions = closest_matches("PROD", &prod_only, 3);
    assert_eq!(suggestions.first().copied(), Some("prod"));
}

#[test]
fn test_closest_matches_finds_typo() {
    let candidates = vec![
        "prod-cluster".to_string(),
        "staging-cluster".to_string(),
        "dev-cluster".to_string(),
    ];
    let suggestions = closest_matches("prod-cluter", &candidates, 3);
    assert!(!suggestions.is_empty());
    assert_eq!(suggestions[0], "prod-cluster");
}

#[test]
fn test_closest_matches_no_match() {
    let candidates = vec!["prod".to_string(), "staging".to_string()];
    let suggestions = closest_matches("completely-different-name", &candidates, 3);
    assert!(suggestions.is_empty());
}

#[test]
fn test_closest_matches_respects_max() {
    let candidates = vec![
        "aa".to_string(),
        "ab".to_string(),
        "ac".to_string(),
        "ad".to_string(),
    ];
    let suggestions = closest_matches("aa", &candidates, 2);
    assert!(suggestions.len() <= 2);
}

#[test]
fn test_error_display_unknown_format() {
    let err = K8pkError::UnknownOutputFormat("xml".to_string());
    let msg = err.message();
    assert!(msg.contains("xml"));
    assert!(msg.contains("env, json, spawn"));
}

#[test]
fn test_error_display_unsupported_shell() {
    let err = K8pkError::UnsupportedShell("csh".to_string());
    let msg = err.message();
    assert!(msg.contains("csh"));
    assert!(msg.contains("bash"));
}

#[test]
fn test_error_display_context_suggestions() {
    let err = K8pkError::ContextNotFoundSuggestions {
        pattern: "prod-cluter".to_string(),
        suggestions: "    - prod-cluster".to_string(),
    };
    let msg = err.message();
    assert!(msg.contains("prod-cluter"));
    assert!(msg.contains("Did you mean"));
    assert!(msg.contains("prod-cluster"));
}

#[test]
fn test_no_contexts_suggests_login() {
    let err = K8pkError::NoContexts;
    let msg = err.message();
    assert!(msg.contains("k8pk login"));
    assert!(msg.contains("k8pk doctor"));
    assert!(msg.contains("k8pk guide"));
    assert!(msg.contains("pick a cluster"));
}

#[test]
fn test_error_display_invalid_argument() {
    let err = K8pkError::InvalidArgument("--json cannot be used with --dry-run".into());
    let msg = err.message();
    assert!(msg.contains("--json"));
    assert!(msg.contains("invalid argument"));
}

#[test]
fn test_error_display_login_failed() {
    let err = K8pkError::LoginFailed("kubeconfig not generated".into());
    let msg = err.message();
    assert!(msg.contains("login failed"));
    assert!(msg.contains("kubeconfig"));
}

#[test]
fn test_error_display_lint_failed() {
    let err = K8pkError::LintFailed;
    let msg = err.message();
    assert!(msg.contains("lint failed"));
}

#[test]
fn test_error_display_http_error() {
    let err = K8pkError::HttpError("connection refused".into());
    let msg = err.message();
    assert!(msg.contains("HTTP"));
    assert!(msg.contains("connection refused"));
}

#[test]
fn test_error_display_context_not_found() {
    let err = K8pkError::ContextNotFound("my-ctx".into());
    let msg = err.message();
    assert!(msg.contains("my-ctx"));
    assert!(msg.contains("k8pk contexts"));
}

#[test]
fn test_error_display_cluster_not_found() {
    let err = K8pkError::ClusterNotFound("my-cluster".into());
    let msg = err.message();
    assert!(msg.contains("my-cluster"));
    assert!(msg.contains("k8pk lint"));
}

#[test]
fn test_error_display_user_not_found() {
    let err = K8pkError::UserNotFound("admin".into());
    let msg = err.message();
    assert!(msg.contains("admin"));
    assert!(msg.contains("k8pk lint"));
}

#[test]
fn test_error_display_no_namespaces() {
    let err = K8pkError::NoNamespaces("prod".into());
    let msg = err.message();
    assert!(msg.contains("prod"));
    assert!(msg.contains("get namespaces"));
}

#[test]
fn test_error_display_kubeconfig_not_found() {
    let err = K8pkError::KubeconfigNotFound("/tmp/missing".into());
    let msg = err.message();
    assert!(msg.contains("/tmp/missing"));
    assert!(msg.contains("KUBECONFIG"));
}

#[test]
fn test_error_display_not_in_context() {
    let msg = K8pkError::NotInContext.message();
    assert!(msg.contains("not in a k8pk context"));
    assert!(msg.contains("k8pk ctx"));
}

#[test]
fn test_error_display_no_previous_context() {
    let msg = K8pkError::NoPreviousContext.message();
    assert!(msg.contains("no previous context"));
}

#[test]
fn test_error_display_no_previous_namespace() {
    let msg = K8pkError::NoPreviousNamespace.message();
    assert!(msg.contains("no previous namespace"));
}

#[test]
fn test_error_display_session_expired() {
    let err = K8pkError::SessionExpired("ocp-dev".into());
    let msg = err.message();
    assert!(msg.contains("ocp-dev"));
    assert!(msg.contains("k8pk login"));
}

#[test]
fn test_error_display_tls_certificate() {
    let err = K8pkError::TlsCertificateError {
        context: "prod".into(),
        hint: "use --insecure".into(),
    };
    let msg = err.message();
    assert!(msg.contains("prod"));
    assert!(msg.contains("use --insecure"));
}

#[test]
fn test_error_display_cancelled() {
    let msg = K8pkError::Cancelled.message();
    assert!(msg.contains("cancelled"));
}

#[test]
fn test_error_display_no_home_dir() {
    let msg = K8pkError::NoHomeDir.message();
    assert!(msg.contains("home directory"));
}

#[test]
fn test_error_display_command_failed() {
    let err = K8pkError::CommandFailed("oc login failed".into());
    let msg = err.message();
    assert!(msg.contains("oc login failed"));
}

#[test]
fn test_error_display_no_tty() {
    let msg = K8pkError::NoTty.message();
    assert!(msg.contains("TTY"));
}

#[test]
fn test_error_display_no_k8s_cli() {
    let msg = K8pkError::NoK8sCli.message();
    assert!(msg.contains("kubectl"));
}

#[test]
fn test_error_display_invalid_kubeconfig() {
    let err = K8pkError::InvalidKubeconfig("missing apiVersion".into());
    let msg = err.message();
    assert!(msg.contains("missing apiVersion"));
    assert!(msg.contains("k8pk lint"));
}

#[test]
fn edit_distance_zero_only_for_equal_and_triangle() {
    assert_ne!(edit_distance("abc", "abd"), 0);
    assert_eq!(edit_distance("", ""), 0);
    let (a, b, c) = ("kitten", "sitting", "fitting");
    assert!(edit_distance(a, c) <= edit_distance(a, b) + edit_distance(b, c));
    assert_eq!(edit_distance(a, b), 3);
}

#[test]
fn closest_matches_nearest_first_and_complete() {
    let cands: Vec<String> = ["prod-b", "dev-a", "prod-a", "staging"].iter().map(|s| s.to_string()).collect();
    let r = closest_matches("prod-a", &cands, 3);
    assert_eq!(r, vec!["prod-a", "prod-b"]);
    let r = closest_matches("prod-a", &cands, 1);
    assert_eq!(r, vec!["prod-a"]);
}

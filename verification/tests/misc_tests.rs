use k8pk::error::K8pkError;
use k8pk::login::{login_type_menu_choice, resolve_login_type_step, test_dry_run_check, LoginType};
use k8pk::rancher::rancher_try_next_provider as next;
use k8pk::session_check::cluster_check_outcome as check;
use k8pk::shell::editor_command_words;
use k8pk::config::{resolve_alias, K8pkConfig};
use k8pk::guide::GUIDE_TEXT;
use k8pk::sessions::format_age;
use k8pk::tmux::{format_name, sanitize_tmux_name};
use std::time::{SystemTime, UNIX_EPOCH};
use k8pk::login::{Vault, VaultEntry};
use k8pk::strmap::StrMap;
use k8pk::state::{CurrentState, StateValue};
use k8pk::wizard::{exec_args_from, exec_env_from, oc_path_from, split_words, timeout_from, wizard_auth_choices, wizard_questions};
use k8pk::tmux::{has_window, pane_env_from_environ, pane_env_from_ps};
use k8pk::alias::{completion_target, manual_setup_line, shell_config_path};

fn now_secs() -> u64 {
    SystemTime::now()
        .duration_since(UNIX_EPOCH)
        .unwrap()
        .as_secs()
}

#[test]
fn test_format_age_seconds() {
    let now = now_secs();
    assert_eq!(format_age(now, now), "0s");
    assert_eq!(format_age(now, now - 30), "30s");
}

#[test]
fn test_format_age_minutes() {
    let now = now_secs();
    assert_eq!(format_age(now, now - 120), "2m");
    assert_eq!(format_age(now, now - 3599), "59m");
}

#[test]
fn test_format_age_hours() {
    let now = now_secs();
    assert_eq!(format_age(now, now - 3600), "1h");
    assert_eq!(format_age(now, now - 7200), "2h");
}

#[test]
fn test_format_age_days() {
    let now = now_secs();
    assert_eq!(format_age(now, now - 86400), "1d");
}

#[test]
fn test_format_name_default() {
    // Without config, default template is "{context}"
    assert_eq!(format_name(None, "my-cluster"), "my-cluster");
}

#[test]
fn test_sanitize_tmux_name() {
    assert_eq!(
        sanitize_tmux_name("api.cluster.example.com:6443"),
        "api-cluster-example-com-6443"
    );
}

#[test]
fn test_sanitize_tmux_name_clean() {
    assert_eq!(sanitize_tmux_name("dev-cluster"), "dev-cluster");
}

#[test]
fn test_default_config() {
    let config = K8pkConfig::default();
    assert!(!config.configs.includes.is_empty());
    assert!(config.hooks.is_none());
    assert!(config.aliases.is_none());
}

#[test]
fn test_resolve_alias_passthrough() {
    // When no alias matches, should return the input unchanged
    let result = resolve_alias(None, "some-context-that-has-no-alias");
    assert_eq!(result, "some-context-that-has-no-alias");
}

#[test]
fn test_default_config_includes() {
    let config = K8pkConfig::default();
    assert!(config.configs.includes.iter().any(|p| p.contains("config")));
}

#[test]
fn guide_mentions_core_commands() {
    assert!(GUIDE_TEXT.contains("k8pk rm"));
    assert!(GUIDE_TEXT.contains("kubie"));
    assert!(GUIDE_TEXT.contains("doctor"));
    assert!(GUIDE_TEXT.contains("rancher-auth-provider"));
}

#[test]
fn test_expand_home() {
    let path = k8pk::discovery::expand_home("~/.kube/config", Some("/home/someone"));
    assert!(path.contains(".kube/config"));
    assert!(!path.starts_with("~"));
}

#[test]
fn test_expand_home_no_tilde() {
    let path = k8pk::discovery::expand_home("/absolute/path", Some("/home/someone"));
    assert_eq!(path, "/absolute/path");
}

#[test]
fn test_vault_crud() {
    let mut vault = Vault::new("/tmp/vault.json".to_string(), StrMap::new());
    vault.set(
        "cluster-a".to_string(),
        VaultEntry {
            username: "admin".to_string(),
            password: "secret".to_string(),
            rancher_auth_provider: None,
        },
    );
    let entry = vault.get("cluster-a").unwrap();
    assert_eq!(entry.username, "admin");
    assert_eq!(entry.password, "secret");
    assert_eq!(entry.rancher_auth_provider, None);
    let keys = vault.list_keys();
    assert_eq!(keys.len(), 1);
    assert!(keys.contains(&"cluster-a"));
    assert!(vault.get("nonexistent").is_none());
    assert!(vault.delete("cluster-a"));
    assert!(vault.get("cluster-a").is_none());
    assert!(!vault.delete("cluster-a"));
    assert_eq!(vault.path(), "/tmp/vault.json");
}

#[test]
fn test_current_state_from_env() {
    let state = k8pk::state::CurrentState::from_vars(None, None, None, None, None);
    assert!(state.depth == 0 || state.depth >= 1);
}

#[test]
fn to_json_includes_set_fields() {
    let s = CurrentState {
        context: Some("dev".into()),
        namespace: Some("prod".into()),
        depth: 1,
        ..Default::default()
    };
    let j = s.json_fields();
    let get = |k: &str| j.iter().find(|(n, _)| n == k).map(|(_, v)| v.clone());
    assert_eq!(get("context"), Some(StateValue::Text("dev".to_string())));
    assert_eq!(get("namespace"), Some(StateValue::Text("prod".to_string())));
    assert_eq!(get("depth"), Some(StateValue::Number(1)));
    assert!(get("config").is_none());
}

#[test]
fn to_json_omits_none_fields() {
    let s = CurrentState::default();
    let j = s.json_fields();
    let get = |k: &str| j.iter().find(|(n, _)| n == k).map(|(_, v)| v.clone());
    assert!(get("context").is_none());
    assert!(get("namespace").is_none());
    assert_eq!(get("depth"), Some(StateValue::Number(0)));
}

#[test]
fn wizard_text_inputs() {
    assert_eq!(split_words("  a  bb\tc\n"), vec!["a", "bb", "c"]);
    assert!(split_words("   ").is_empty());
    assert_eq!(exec_args_from("eks get-token --cluster-name prod"), vec!["eks", "get-token", "--cluster-name", "prod"]);
    assert!(exec_args_from("  ").is_empty());
    assert_eq!(exec_env_from(" A=1 , ,B=2"), vec!["A=1", "B=2"]);
    assert_eq!(timeout_from("30"), 30);
    assert_eq!(timeout_from("x"), 10);
    assert_eq!(oc_path_from("  /usr/bin/oc ").unwrap(), "/usr/bin/oc");
    assert!(oc_path_from("  ").is_err());
    assert_eq!(wizard_auth_choices("gke"), vec!["auto"]);
    assert_eq!(wizard_auth_choices("k8s").len(), 4);
    assert_eq!(wizard_questions("rancher", "userpass"), (true, true, false));
    assert_eq!(wizard_questions("k8s", "exec"), (false, false, true));
}

#[test]
fn tmux_pane_environment() {
    let ps = "  PID TTY STAT TIME COMMAND\n 42 s000 S 0:00 -zsh K8PK_CONTEXT=dev HOME=/h K8PK_NAMESPACE=team\n";
    assert_eq!(pane_env_from_ps(ps), Some(("dev".to_string(), "team".to_string())));
    let environ = "HOME=/h\0K8PK_CONTEXT=prod\0";
    assert_eq!(pane_env_from_environ(environ), Some(("prod".to_string(), "(default)".to_string())));
    assert_eq!(pane_env_from_ps("nothing here"), None);
    assert!(has_window("k8s-dev\nk8s-prod\n", "k8s-prod"));
    assert!(!has_window("k8s-dev\n", "k8s"));
}

#[test]
fn alias_paths() {
    assert_eq!(shell_config_path("bash", "/h", false), Some("/h/.bash_profile".to_string()));
    assert_eq!(shell_config_path("zsh", "/h", false), Some("/h/.zshrc".to_string()));
    assert_eq!(shell_config_path("nu", "/h", true), None);
    assert_eq!(
        completion_target("zsh", "/h"),
        Some(("/h/.zfunc".to_string(), "/h/.zfunc/_k8pk".to_string()))
    );
    assert_eq!(manual_setup_line("fish"), "Add to ~/.config/fish/config.fish:");
}

#[test]
fn editor_command_words_picks_and_splits_the_line() {
    let (p, a) = editor_command_words(Some("code --wait"), Some("nano")).unwrap();
    assert_eq!(p, "code");
    assert_eq!(a, vec!["--wait".to_string()]);
    let (p, a) = editor_command_words(None, Some("nano -w")).unwrap();
    assert_eq!((p.as_str(), a.len()), ("nano", 1));
    let (p, a) = editor_command_words(None, None).unwrap();
    assert_eq!((p.as_str(), a.len()), ("vim", 0));
    let err = editor_command_words(Some("vim 'oops"), None).unwrap_err();
    assert!(err.message().contains("invalid editor command 'vim 'oops': missing closing quote"));
    let err = editor_command_words(Some("   "), None).unwrap_err();
    assert!(err.message().contains("editor command is empty"));
}

#[test]
fn deeply_nested_glob_is_refused_not_a_panic() {
    let pattern = format!("{}b{}*", "{a,".repeat(300), "}".repeat(300));
    let contexts = vec!["ab".to_string(), "b".to_string()];
    assert!(k8pk::context::match_pattern(&pattern, &contexts).is_empty());
}

#[test]
fn probe_outcome_reads_the_run() {
    use_probe_outcome();
}

fn use_probe_outcome() {
    use_probe(k8pk::session_check::probe_outcome(Some(true), "x509: bad"), "alive");
    use_probe(k8pk::session_check::probe_outcome(Some(false), "x509: certificate signed by unknown authority"), "tls");
    use_probe(k8pk::session_check::probe_outcome(Some(false), "error: You must be logged in"), "failed");
    use_probe(k8pk::session_check::probe_outcome(None, "SSL"), "failed");
}

fn use_probe(r: k8pk::session_check::ProbeResult, want: &str) {
    let got = match r {
        k8pk::session_check::ProbeResult::Alive => "alive",
        k8pk::session_check::ProbeResult::TlsError => "tls",
        k8pk::session_check::ProbeResult::Failed => "failed",
    };
    assert_eq!(got, want);
}

#[test]
fn cluster_check_outcome_messages() {
    assert!(check(true, "", "c", "").is_ok());
    assert_eq!(
        check(false, "Error from server (ServiceUnavailable): 503", "c", "exit status: 1").unwrap_err(),
        "cluster 'c' authenticated but API is not responding. The cluster may be down or decommissioned."
    );
    assert_eq!(
        check(false, "error: You must be logged in (Unauthorized)", "c", "exit status: 1").unwrap_err(),
        "cluster 'c' returned Unauthorized after login. Token may be invalid or expired immediately."
    );
    assert_eq!(check(false, "  boom \n", "c", "exit status: 1").unwrap_err(), "cluster 'c' check failed: boom");
    assert_eq!(check(false, "", "c", "exit status: 2").unwrap_err(), "cluster 'c' check failed (exit exit status: 2)");
    assert!(k8pk::session_check::post_check_offers_insecure("x509: certificate has expired", true, true));
    assert!(!k8pk::session_check::post_check_offers_insecure("x509: certificate has expired", true, false));
    assert!(!k8pk::session_check::post_check_offers_insecure("cluster 'c' check failed: boom", true, true));
}

#[test]
fn add_insecure_context_lists_once() {
    let mut config = K8pkConfig::default();
    k8pk::config::add_insecure_context(&mut config, "lab");
    k8pk::config::add_insecure_context(&mut config, "lab");
    k8pk::config::add_insecure_context(&mut config, "dev");
    assert_eq!(config.insecure_contexts, Some(vec!["lab".to_string(), "dev".to_string()]));
}

#[test]
fn login_type_resolution_steps() {
    assert_eq!(resolve_login_type_step("OCP", "https://x", false).unwrap(), Some((LoginType::Ocp, false)));
    assert_eq!(
        resolve_login_type_step("auto", "https://abc.eks.amazonaws.com", false).unwrap(),
        Some((LoginType::K8s, true))
    );
    assert_eq!(resolve_login_type_step("auto", "https://plain.example.com", true).unwrap(), None);
    let e = resolve_login_type_step("auto", "https://plain.example.com", false).unwrap_err();
    assert!(e.message().contains("specify --type explicitly"));
    assert!(resolve_login_type_step("bogus", "https://x", true).is_err());
    assert_eq!(login_type_menu_choice("gke (Google)"), LoginType::Gke);
    assert_eq!(login_type_menu_choice("k8s (generic Kubernetes)"), LoginType::K8s);
    assert!(test_dry_run_check(true, true).unwrap_err().message().contains("--test cannot be used with --dry-run"));
    assert!(test_dry_run_check(true, false).is_ok());
}

#[test]
fn rancher_moves_to_next_provider_only_after_a_refusal() {
    let refused = K8pkError::LoginFailed("HTTP 401 Unauthorized".to_string());
    let other = K8pkError::HttpError("connection reset".to_string());
    assert!(next(3, 0, &refused));
    assert!(!next(3, 2, &refused));
    assert!(!next(3, 0, &other));
}

use k8pk::config::K8pkConfig;
use k8pk::config_edit::{
    add_alias, add_pattern, alias_menu, clear_aliases, remove_aliases, remove_patterns,
    reset_patterns, reset_to_defaults, save_label, set_clusters_only, set_hooks,
    validate_alias_name, validate_pattern, ChangeTracker,
};
use k8pk::config::resolve_alias;
use k8pk::discovery::{
    choose_k8s_cli, expand_home, find_from_config, match_globs, namespace_list,
    namespaces_failed, pattern_listing_dir, scan_directory, FileEntry, PatternFiles,
    ScannedEntry,
};
use k8pk::error::K8pkError;

#[test]
fn change_tracker_counts() {
    let mut c = ChangeTracker::default();
    assert_eq!(c.count(), 0);
    assert!(!c.has_changes());
    assert_eq!(save_label(&c), "Save and exit");
    c.hooks_changed = true;
    c.aliases_changed = true;
    assert_eq!(c.count(), 2);
    assert_eq!(save_label(&c), "Save and exit (2)");
}

#[test]
fn pattern_validation() {
    assert_eq!(validate_pattern(""), Err("Pattern cannot be empty".to_string()));
    assert!(validate_pattern("~/.kube/*.yaml").is_ok());
    assert!(validate_pattern("/etc/kube").is_ok());
    assert!(validate_pattern("my.yml").is_ok());
    assert_eq!(
        validate_pattern("config"),
        Err("Pattern should be a file path (with ~/ or /) or use glob patterns (*)".to_string())
    );
    assert_eq!(validate_alias_name(""), Err("Alias name cannot be empty".to_string()));
    assert_eq!(validate_alias_name("a b"), Err("Alias name cannot contain spaces".to_string()));
    assert!(validate_alias_name("prod").is_ok());
}

#[test]
fn editing_patterns_and_picker() {
    let mut cfg = K8pkConfig::default();
    let mut ch = ChangeTracker::default();
    assert!(set_clusters_only(&mut cfg, &mut ch, true));
    assert!(ch.picker_changed);
    assert!(!set_clusters_only(&mut cfg, &mut ch, true));
    add_pattern(&mut cfg, &mut ch, true, "/x/*.yaml");
    assert_eq!(cfg.configs.includes.last().unwrap(), "/x/*.yaml");
    assert!(ch.patterns_changed);
    let before = cfg.configs.excludes.len();
    add_pattern(&mut cfg, &mut ch, false, "");
    assert_eq!(cfg.configs.excludes.len(), before);
    remove_patterns(&mut cfg, &mut ch, true, &["/x/*.yaml".to_string(), "~/.kube/config".to_string()]);
    assert!(!cfg.configs.includes.contains(&"/x/*.yaml".to_string()));
    assert!(!cfg.configs.includes.contains(&"~/.kube/config".to_string()));
    assert_eq!(cfg.configs.includes.len(), 4);
    reset_patterns(&mut cfg, &mut ch);
    assert_eq!(cfg.configs.includes.len(), 5);
}

#[test]
fn editing_hooks() {
    let mut cfg = K8pkConfig::default();
    let mut ch = ChangeTracker::default();
    assert!(set_hooks(&mut cfg, &mut ch, "echo start", ""));
    let h = cfg.hooks.as_ref().unwrap();
    assert_eq!(h.start_ctx.as_deref(), Some("echo start"));
    assert!(h.stop_ctx.is_none());
    assert!(ch.hooks_changed);
    let mut ch2 = ChangeTracker::default();
    // The stop hook was unset, and an empty one differs from unset.
    assert!(set_hooks(&mut cfg, &mut ch2, "echo start", ""));
    let mut ch3 = ChangeTracker::default();
    assert!(set_hooks(&mut cfg, &mut ch3, "", ""));
    assert!(cfg.hooks.is_none());
}

#[test]
fn editing_aliases() {
    let mut cfg = K8pkConfig::default();
    let mut ch = ChangeTracker::default();
    assert_eq!(alias_menu(&cfg), vec!["Add alias", "Back"]);
    add_alias(&mut cfg, &mut ch, "prod", "arn:aws:eks:us-east-1:1:cluster/prod");
    assert!(ch.aliases_changed);
    assert_eq!(resolve_alias(Some(&cfg), "prod"), "arn:aws:eks:us-east-1:1:cluster/prod");
    assert_eq!(alias_menu(&cfg).len(), 5);
    add_alias(&mut cfg, &mut ch, "dev", "dev-ctx");
    remove_aliases(&mut cfg, &mut ch, &["prod".to_string()]);
    assert_eq!(resolve_alias(Some(&cfg), "prod"), "prod");
    assert_eq!(resolve_alias(Some(&cfg), "dev"), "dev-ctx");
    remove_aliases(&mut cfg, &mut ch, &["dev".to_string()]);
    assert!(cfg.aliases.is_none());
    add_alias(&mut cfg, &mut ch, "x", "y");
    clear_aliases(&mut cfg, &mut ch);
    assert!(cfg.aliases.is_none());
    reset_to_defaults(&mut cfg, &mut ch);
    assert_eq!(ch.count(), 4);
}

#[test]
fn home_expansion_and_globs() {
    assert_eq!(expand_home("~/.kube/config", Some("/home/u")), "/home/u/.kube/config");
    assert_eq!(expand_home("~/.kube/config", None), "~/.kube/config");
    assert_eq!(expand_home("/etc/x", Some("/home/u")), "/etc/x");
    let pats = vec!["~/.kube/*.bak".to_string(), "/tmp/k8pk.yaml".to_string()];
    assert_eq!(match_globs("/home/u/.kube/a.bak", &pats, Some("/home/u")).unwrap(), true);
    assert_eq!(match_globs("/home/u/.kube/a.yaml", &pats, Some("/home/u")).unwrap(), false);
    let bad = vec!["a[".to_string()];
    match match_globs("/x", &bad, None) {
        Err(K8pkError::InvalidKubeconfig(m)) => assert_eq!(m, "invalid glob: a["),
        _ => panic!("expected invalid glob"),
    }
    assert_eq!(pattern_listing_dir("~/.kube/*.yaml", Some("/home/u")), Some("/home/u/.kube".to_string()));
    assert_eq!(pattern_listing_dir("~/.kube/config", Some("/home/u")), None);
}

#[test]
fn files_from_config_patterns() {
    let mut cfg = K8pkConfig::default();
    cfg.configs.includes = vec!["~/.kube/config".to_string(), "~/.kube/*.yaml".to_string()];
    cfg.configs.excludes = vec!["~/.kube/k8pk.yaml".to_string()];
    let files = vec![
        PatternFiles::Direct { is_file: true },
        PatternFiles::Glob {
            dir_exists: true,
            entries: vec![
                FileEntry { path: "/h/.kube/a.yaml".to_string(), is_file: true },
                FileEntry { path: "/h/.kube/k8pk.yaml".to_string(), is_file: true },
                FileEntry { path: "/h/.kube/dir.yaml".to_string(), is_file: false },
                FileEntry { path: "/h/.kube/notes.txt".to_string(), is_file: true },
            ],
        },
    ];
    let found = find_from_config(&cfg, Some("/h"), &files).unwrap();
    assert_eq!(found, vec!["/h/.kube/config".to_string(), "/h/.kube/a.yaml".to_string()]);
}

#[test]
fn scanning_and_cli() {
    let entries = vec![
        ScannedEntry { path: "/d/config".to_string(), file_name: Some("config".to_string()), is_file: true },
        ScannedEntry { path: "/d/x.yml".to_string(), file_name: Some("x.yml".to_string()), is_file: true },
        ScannedEntry { path: "/d/y.json".to_string(), file_name: Some("y.json".to_string()), is_file: true },
        ScannedEntry { path: "/d/sub.yaml".to_string(), file_name: Some("sub.yaml".to_string()), is_file: false },
    ];
    assert_eq!(scan_directory(&entries), vec!["/d/config".to_string(), "/d/x.yml".to_string()]);
    assert_eq!(choose_k8s_cli(true, true).unwrap(), "oc");
    assert_eq!(choose_k8s_cli(false, true).unwrap(), "kubectl");
    assert!(matches!(choose_k8s_cli(false, false), Err(K8pkError::NoK8sCli)));
    match namespaces_failed("kubectl", "  boom \n") {
        K8pkError::CommandFailed(m) => assert_eq!(m, "kubectl get ns failed: boom"),
        _ => panic!("expected command failure"),
    }
    let ns = namespace_list(vec![Some("kube-system".to_string()), None, Some("default".to_string())]);
    assert_eq!(ns, vec!["default".to_string(), "kube-system".to_string()]);
}

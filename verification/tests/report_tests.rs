use k8pk::doctor::{
    check_gcloud, check_gke_auth_plugin, check_kubeconfig_permissions, check_kubectl, check_oc,
    check_shell_integration, check_vault_file_permissions, doctor_report, fix_target,
    fixed_count, mark_fixed, shell_rc_files, should_check_gke, status_name, DiagStatus,
    DiagnosticResult, ToolRun, VaultFileState,
};
use k8pk::error::K8pkError;
use k8pk::kubeconfig_ops::{CleanupResult, CopyContextResult, DiffResult, MergeResult, RemoveContextResult, RenameContextResult};
use k8pk::organize::{organize_by_cluster_type, organize_summary, which_contexts, context_info};
use k8pk::rancher::{
    cluster_proxy_url, clusters_page_url, next_page_url, rancher_login_url, reply_token,
    select_clusters, RancherClusterInfo,
};
use k8pk::session_check::{
    is_stale_kubeconfig, mark_session, prune_due, session_step, ProbeResult, SessionStep,
};
use k8pk::shell::{exec_env, exec_header, exec_result, login_shell, nesting_note, shell_env, start_hook_env};
use k8pk::strmap::StrMap;
use k8pk::summaries::{
    backup_path, cleanup_summary, copy_context_summary, diff_summary, merge_summary,
    remove_context_summary, rename_context_summary,
};
use k8pk::kubeconfig::KubeConfig;

#[test]
fn tool_checks() {
    let r = check_kubectl(&ToolRun::Succeeded("Client Version: v1.30.1\nKustomize Version: v5\n".to_string()));
    assert_eq!(r.status, DiagStatus::Passed);
    assert_eq!(r.message, "Found: Client Version: v1.30.1");
    assert_eq!(check_kubectl(&ToolRun::Failed).status, DiagStatus::Warning);
    let e = check_kubectl(&ToolRun::NotFound);
    assert_eq!(e.status, DiagStatus::Error);
    assert_eq!(e.fix_hint.as_deref(), Some("Install kubectl: https://kubernetes.io/docs/tasks/tools/"));
    let oc = check_oc(&ToolRun::Succeeded("Client Version: 4.15\nServer Version: 4.14\n".to_string()), "/usr/bin/oc", "PATH");
    assert_eq!(oc.message, "Client Version: 4.15 | /usr/bin/oc | via PATH");
    let g = check_gcloud(&ToolRun::Succeeded("Google Cloud SDK 470.0.0\nbq 2.1\n".to_string()));
    assert_eq!(g.message, "Found: Google Cloud SDK 470.0.0");
    let p = check_gke_auth_plugin(&ToolRun::Succeeded(" Kubernetes v1.28 \n".to_string()));
    assert_eq!(p.message, "Found: Kubernetes v1.28");
    assert!(should_check_gke(false, &["gke_proj_zone_c".to_string()]));
    assert!(!should_check_gke(false, &["prod".to_string()]));
}

#[test]
fn permission_checks() {
    let w = check_kubeconfig_permissions("/h/.kube/config", 0o100644);
    assert_eq!(w.status, DiagStatus::Warning);
    assert_eq!(w.name, "file permissions: /h/.kube/config");
    assert_eq!(w.message, "kubeconfig is accessible by others (mode 0644)");
    assert_eq!(w.fix_hint.as_deref(), Some("Run: chmod 600 /h/.kube/config (or use k8pk doctor --fix)"));
    let ok = check_kubeconfig_permissions("/h/.kube/config", 0o100600);
    assert_eq!(ok.message, "restricted (mode 0600)");
    let v = check_vault_file_permissions("/h/.kube/k8pk-vault.json", VaultFileState::Mode(0o640)).unwrap();
    assert_eq!(v.message, "vault file is accessible by others (mode 0640)");
    assert!(check_vault_file_permissions("/x", VaultFileState::Unreadable).is_none());
    assert_eq!(check_vault_file_permissions("/x", VaultFileState::Missing).unwrap().name, "vault file");
}

#[test]
fn report_and_fixes() {
    let mut results = vec![
        DiagnosticResult::ok("a", "fine"),
        check_kubeconfig_permissions("/k", 0o644),
        DiagnosticResult::error("b", "broken", Some("fix it")),
    ];
    let lines = doctor_report(&results);
    assert_eq!(lines[0], "k8pk Doctor");
    assert_eq!(lines[3], "[OK] a: fine");
    assert_eq!(lines[4], "[WARN] file permissions: /k: kubeconfig is accessible by others (mode 0644)");
    assert_eq!(lines[5], "       Hint: Run: chmod 600 /k (or use k8pk doctor --fix)");
    assert_eq!(lines[6], "[ERR] b: broken");
    assert_eq!(lines[7], "       Hint: fix it");
    assert_eq!(lines[9], "Summary: 1 OK, 1 warnings, 1 errors");
    assert_eq!(lines[11], "Some issues need attention. Check the hints above.");
    assert_eq!(fix_target(&results[1]).as_deref(), Some("/k"));
    assert_eq!(fix_target(&results[0]), None);
    mark_fixed(&mut results[1]);
    assert_eq!(fixed_count(&results), 1);
    assert_eq!(status_name(DiagStatus::Warning), "warning");
    let all_ok = doctor_report(&[DiagnosticResult::ok("a", "fine")]);
    assert_eq!(all_ok.last().unwrap(), "All checks passed!");
}

#[test]
fn shell_integration_checks() {
    assert_eq!(shell_rc_files("/usr/bin/zsh", "/h"), vec!["/h/.zshrc".to_string()]);
    assert_eq!(shell_rc_files("/bin/bash", "/h"), vec!["/h/.bashrc".to_string(), "/h/.bash_profile".to_string()]);
    assert_eq!(check_shell_integration(true, Some(".zshrc")).message, "Found k8pk reference in .zshrc");
    assert_eq!(check_shell_integration(true, None).status, DiagStatus::Warning);
    assert_eq!(check_shell_integration(false, None).message, "Cannot determine home directory");
}

#[test]
fn command_summaries() {
    let c = CleanupResult {
        removed: vec!["/a.yaml".to_string()],
        skipped: 2,
        dry_run: true,
        all: false,
        orphaned: false,
        from_file: None,
        found: true,
    };
    assert_eq!(cleanup_summary(&c), vec!["Would remove: /a.yaml".to_string(), "Dry run: would remove 1 files, keep 2".to_string()]);
    let none = CleanupResult { removed: vec![], skipped: 0, dry_run: false, all: false, orphaned: false, from_file: None, found: false };
    assert_eq!(cleanup_summary(&none), vec!["No generated configs directory found".to_string()]);
    let m = MergeResult { files: vec!["a".to_string(), "b".to_string()], output: Some("/o".to_string()), overwrite: false, yaml: None };
    assert_eq!(merge_summary(&m).unwrap(), "Merged 2 files into /o");
    let d = DiffResult {
        file1: "f1".to_string(),
        file2: "f2".to_string(),
        only_in_1: vec!["x".to_string()],
        only_in_2: vec![],
        in_both: vec!["y".to_string()],
    };
    assert_eq!(diff_summary(&d, false), vec!["Only in f1:", "  - x", "In both (1 contexts):", "  = y"]);
    assert_eq!(diff_summary(&d, true), vec!["Only in f1:", "  - x"]);
    let r = RemoveContextResult {
        file: "f".to_string(),
        removed_contexts: vec!["c".to_string()],
        removed_clusters: vec!["cl".to_string()],
        removed_users: vec![],
        dry_run: false,
    };
    assert_eq!(remove_context_summary(&r), vec!["Removed context: c", "Removed orphaned cluster: cl"]);
    let rn = RenameContextResult { file: "f".to_string(), old_name: "a".to_string(), new_name: "b".to_string(), dry_run: true };
    assert_eq!(rename_context_summary(&rn), "Would rename context: a -> b");
    let cp = CopyContextResult { from_file: "f".to_string(), to_file: "t".to_string(), context: "a".to_string(), new_name: "b".to_string(), dry_run: false };
    assert_eq!(copy_context_summary(&cp), "Copied context: a -> b (t)");
    assert_eq!(backup_path(Some("/h/.kube"), "config", 1700000000), "/h/.kube/config.bak.1700000000");
}

#[test]
fn organize_summary_and_which() {
    let mut cfg = KubeConfig::default();
    cfg.contexts.push(k8pk::kubeconfig::NamedItem { name: "gke_p_z_c".to_string(), rest: k8pk::yaml::YamlValue::Mapping(vec![]) });
    let plan = organize_by_cluster_type("/s", "/o", &cfg, true, false);
    let lines = organize_summary(&plan.result);
    assert_eq!(lines[0], "Organizing 1 contexts:");
    assert_eq!(lines[1], "  1 contexts -> /o/gke.yaml");
    assert!(lines[2].starts_with("    - gke_p_z_c ("));
    assert_eq!(lines.last().unwrap(), "\nDry run complete. Use without --dry-run to create files.");
    let mut sources: StrMap<String> = StrMap::new();
    sources.insert("gke_p_z_c".to_string(), "/k/config".to_string());
    let info = context_info(&cfg, &sources, "gke_p_z_c");
    assert_eq!(info.cluster_type, "gke");
    assert_eq!(info.source.as_deref(), Some("/k/config"));
    assert!(info.server.is_none());
    assert_eq!(which_contexts(Some("gke*"), &sources).unwrap(), vec!["gke_p_z_c".to_string()]);
    assert!(matches!(which_contexts(Some("nope"), &sources), Err(K8pkError::NoContexts)));
}

#[test]
fn rancher_addresses() {
    assert_eq!(rancher_login_url("https://r/", "ad"), "https://r/v3-public/activeDirectoryProviders/activedirectory?action=login");
    assert_eq!(clusters_page_url("https://r//"), "https://r/v3/clusters?limit=500");
    assert_eq!(cluster_proxy_url("https://r", "c-1"), "https://r/k8s/clusters/c-1");
    assert_eq!(next_page_url(Some("")), None);
    assert_eq!(next_page_url(Some("https://r/p2")), Some("https://r/p2".to_string()));
    assert_eq!(reply_token(Some(Some("t1")), Some(Some("t2"))), Some("t1".to_string()));
    assert_eq!(reply_token(Some(None), Some(Some("t2"))), None);
    assert_eq!(reply_token(None, Some(Some("t2"))), Some("t2".to_string()));
    let cs = vec![
        RancherClusterInfo { id: "c-1".to_string(), name: "prod".to_string() },
        RancherClusterInfo { id: "c-2".to_string(), name: "dev".to_string() },
    ];
    let sel = select_clusters(cs.clone(), Some("prod")).unwrap();
    assert_eq!(sel, vec![RancherClusterInfo { id: "c-1".to_string(), name: "prod".to_string() }]);
    match select_clusters(cs.clone(), Some("zzz")) {
        Err(K8pkError::LoginFailed(m)) => assert_eq!(m, "no clusters matched pattern 'zzz'"),
        _ => panic!("expected error"),
    }
    assert!(matches!(select_clusters(vec![], None), Err(K8pkError::LoginFailed(_))));
}

#[test]
fn session_checks() {
    assert!(matches!(session_step(ProbeResult::Alive, "c", false, false), SessionStep::Done));
    assert!(matches!(session_step(ProbeResult::TlsError, "c", true, true), SessionStep::OfferInsecure));
    match session_step(ProbeResult::TlsError, "c", false, true) {
        SessionStep::Fail(K8pkError::TlsCertificateError { context, .. }) => assert_eq!(context, "c"),
        _ => panic!("expected TLS failure"),
    }
    assert!(matches!(session_step(ProbeResult::Failed, "c", true, false), SessionStep::Relogin));
    assert!(matches!(session_step(ProbeResult::Failed, "c", false, false), SessionStep::Fail(K8pkError::SessionExpired(_))));
    let mut marks: StrMap<u64> = StrMap::new();
    for i in 0..70u64 {
        mark_session(&mut marks, &format!("ctx{}", i), 1000 + i);
    }
    assert_eq!(marks.len(), 64);
    assert!(!marks.contains_key("ctx0"));
    assert!(marks.contains_key("ctx69"));
    assert!(prune_due(None));
    assert!(!prune_due(Some(10)));
    assert!(prune_due(Some(86400)));
    assert!(is_stale_kubeconfig("a.yaml", Some(8 * 86400), 7));
    assert!(!is_stale_kubeconfig("history.yaml", Some(8 * 86400), 7));
    assert!(!is_stale_kubeconfig("a.yaml", None, 7));
}

#[test]
fn shell_environment() {
    assert_eq!(login_shell(None), "/bin/sh");
    let env = shell_env("/k", "c", "C", 2, Some("ns"));
    assert_eq!(env.len(), 6);
    assert_eq!(env[3], ("K8PK_DEPTH".to_string(), "2".to_string()));
    assert_eq!(env[5], ("OC_NAMESPACE".to_string(), "ns".to_string()));
    assert_eq!(exec_env("/k", "/cache", "c", None).len(), 3);
    assert_eq!(start_hook_env("c", None)[2], ("K8PK_NAMESPACE".to_string(), String::new()));
    assert_eq!(nesting_note(1), None);
    assert_eq!(
        nesting_note(3).unwrap(),
        "Note: entering nested k8pk shell (depth 3). Use 'exit' to return to the parent shell."
    );
    assert_eq!(exec_header("c", None), "CONTEXT => c (namespace: (default))");
    let r = exec_result("c", Some("n"), None, "o".to_string(), "e".to_string());
    assert_eq!(r.exit_code, 1);
    assert_eq!(r.namespace, "n");
}

#[test]
fn exec_failure_messages() {
    match k8pk::shell::exec_failed_in("prod", 3) {
        k8pk::error::K8pkError::CommandFailed(m) => assert_eq!(m, "command failed in context 'prod' with exit code 3"),
        other => panic!("unexpected: {:?}", other),
    }
    match k8pk::shell::exec_failed(-2) {
        k8pk::error::K8pkError::CommandFailed(m) => assert_eq!(m, "command failed with exit code -2"),
        other => panic!("unexpected: {:?}", other),
    }
}

#[test]
fn isolated_files_of_a_context() {
    assert!(k8pk::context::is_isolated_file_of("dev.yaml", "dev"));
    assert!(k8pk::context::is_isolated_file_of("dev_kube-system.yaml", "dev"));
    assert!(!k8pk::context::is_isolated_file_of("prod.yaml", "dev"));
    assert!(!k8pk::context::is_isolated_file_of("dev.yml", "dev"));
}

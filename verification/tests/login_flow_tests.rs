use k8pk::error::K8pkError;
use k8pk::kubeconfig::{KubeConfig, NamedItem};
use k8pk::login::{AuthMode, ExecAuthConfig, LoginType};
use k8pk::login_config::{
    credential_source, gke_login_kubeconfig, k8s_login_kubeconfig, k8s_needs_userpass,
    login_context_name, login_kubeconfig_path, ocp_adopt_context, ocp_login_args,
    ocp_login_check, ocp_login_failure, ocp_vault_key, rancher_login_kubeconfig,
    rancher_needs_proxy_lookup, refreshed_token, set_refreshed_token, CredentialSource,
};
use k8pk::relogin::{
    is_auth_failure, login_type_name, missing_vault_hint, rancher_provider_choice,
    relogin_request, relogin_type_choice, vault_relogin_server, RancherRelogin, ReloginAuth,
};
use k8pk::update::{installed_result, plan_update, platform_names, release_tag, select_asset, UpdateStep};
use k8pk::yaml::{YamlEntry, YamlValue};

fn s(x: &str) -> YamlValue {
    YamlValue::Str(x.to_string())
}

fn map(entries: Vec<(&str, YamlValue)>) -> YamlValue {
    YamlValue::Mapping(
        entries
            .into_iter()
            .map(|(k, v)| YamlEntry { key: s(k), value: v })
            .collect(),
    )
}

fn get<'a>(v: &'a YamlValue, k: &str) -> Option<&'a YamlValue> {
    match v {
        YamlValue::Mapping(es) => es.iter().find(|e| matches!(&e.key, YamlValue::Str(x) if x == k)).map(|e| &e.value),
        _ => None,
    }
}

fn keys(v: &YamlValue) -> Vec<String> {
    match v {
        YamlValue::Mapping(es) => es
            .iter()
            .map(|e| match &e.key {
                YamlValue::Str(x) => x.clone(),
                _ => String::new(),
            })
            .collect(),
        _ => Vec::new(),
    }
}

fn str_of(v: Option<&YamlValue>) -> Option<String> {
    match v {
        Some(YamlValue::Str(x)) => Some(x.clone()),
        _ => None,
    }
}

#[test]
fn login_context_name_from_server() {
    assert_eq!(login_context_name("k8s", "https://api.example.com:6443/x", None), "k8s-api.example.com-6443-x");
    assert_eq!(login_context_name("ocp", "http://h:1", None), "ocp-h-1");
    assert_eq!(login_context_name("gke", "https://h", Some("mine")), "mine");
}

#[test]
fn login_path_is_sanitized() {
    assert_eq!(login_kubeconfig_path("/out", "a/b:c"), "/out/a_b_c.yaml");
}

#[test]
fn k8s_token_kubeconfig() {
    let exec = ExecAuthConfig::default();
    let cfg = k8s_login_kubeconfig(
        "dev", "https://k:6443", Some("tok"), None, None, true, None, None, None, AuthMode::Token, &exec,
    )
    .unwrap();
    assert_eq!(cfg.current_context.as_deref(), Some("dev"));
    assert_eq!(cfg.api_version.as_deref(), Some("v1"));
    assert_eq!(cfg.clusters[0].name, "dev-cluster");
    let cluster = get(&cfg.clusters[0].rest, "cluster").unwrap();
    assert_eq!(str_of(get(cluster, "server")), Some("https://k:6443".to_string()));
    assert!(matches!(get(cluster, "insecure-skip-tls-verify"), Some(YamlValue::Bool(true))));
    let user = get(&cfg.users[0].rest, "user").unwrap();
    assert_eq!(keys(user), vec!["token"]);
    assert_eq!(cfg.users[0].name, "dev-user");
    let ctx = get(&cfg.contexts[0].rest, "context").unwrap();
    assert_eq!(str_of(get(ctx, "cluster")), Some("dev-cluster".to_string()));
    assert_eq!(str_of(get(ctx, "user")), Some("dev-user".to_string()));
}

#[test]
fn k8s_userpass_and_cert_kubeconfig() {
    let exec = ExecAuthConfig::default();
    assert!(k8s_needs_userpass(AuthMode::Auto, None, None, None, &exec));
    assert!(!k8s_needs_userpass(AuthMode::Auto, Some("t"), None, None, &exec));
    let cfg = k8s_login_kubeconfig(
        "c", "https://k", None, Some("u"), Some("p"), false, Some("/ca.crt"), Some("/c.crt"), Some("/c.key"),
        AuthMode::UserPass, &exec,
    )
    .unwrap();
    let user = get(&cfg.users[0].rest, "user").unwrap();
    assert_eq!(keys(user), vec!["username", "password", "client-certificate", "client-key"]);
    let cluster = get(&cfg.clusters[0].rest, "cluster").unwrap();
    assert_eq!(keys(cluster), vec!["server", "certificate-authority"]);
}

#[test]
fn k8s_exec_without_command_fails() {
    let exec = ExecAuthConfig::default();
    let r = k8s_login_kubeconfig("c", "https://k", None, None, None, false, None, None, None, AuthMode::Exec, &exec);
    assert!(matches!(r, Err(K8pkError::InvalidArgument(_))));
}

#[test]
fn k8s_no_credentials_gives_empty_user() {
    let exec = ExecAuthConfig::default();
    let cfg = k8s_login_kubeconfig("c", "https://k", None, None, None, false, None, Some("/c.crt"), None, AuthMode::ClientCert, &exec).unwrap();
    assert!(keys(&cfg.users[0].rest).is_empty());
}

#[test]
fn gke_and_rancher_kubeconfigs() {
    let cfg = gke_login_kubeconfig("g", "https://g", false, None);
    let user = get(&cfg.users[0].rest, "user").unwrap();
    let exec = get(user, "exec").unwrap();
    assert_eq!(str_of(get(exec, "command")), Some("gke-gcloud-auth-plugin".to_string()));
    let cfg = rancher_login_kubeconfig("r", "https://r/k8s/clusters/c-1", "tok", false, None);
    let user = get(&cfg.users[0].rest, "user").unwrap();
    assert_eq!(str_of(get(user, "token")), Some("tok".to_string()));
    let cluster = get(&cfg.clusters[0].rest, "cluster").unwrap();
    assert_eq!(keys(cluster), vec!["server"]);
}

#[test]
fn ocp_checks_and_args() {
    assert!(matches!(ocp_login_check(AuthMode::Exec, false), Err(K8pkError::InvalidArgument(_))));
    match ocp_login_check(AuthMode::Auto, true) {
        Err(K8pkError::InvalidArgument(m)) => assert_eq!(m, "--dry-run is not supported for --type ocp"),
        _ => panic!("expected error"),
    }
    assert!(ocp_login_check(AuthMode::Token, false).is_ok());
    assert_eq!(ocp_vault_key("https://api:6443"), "ocp:https://api:6443");
    let args = ocp_login_args("https://api:6443", None, Some("u"), Some("p"), None, true);
    assert_eq!(args, vec!["login", "https://api:6443", "--username", "u", "--password", "p", "--insecure-skip-tls-verify"]);
    assert_eq!(credential_source(true, true, false), CredentialSource::Token);
    assert_eq!(credential_source(false, false, true), CredentialSource::Given);
    assert_eq!(credential_source(false, false, false), CredentialSource::Stored);
}

#[test]
fn ocp_failure_messages() {
    match ocp_login_failure("x509: certificate signed by unknown authority", "ctx", "https://s", "oc") {
        K8pkError::TlsCertificateError { context, hint } => {
            assert_eq!(context, "ctx");
            assert_eq!(hint, "Re-login with: k8pk login --insecure-skip-tls-verify --server https://s --name ctx");
        }
        _ => panic!("expected TLS error"),
    }
    assert!(matches!(ocp_login_failure("Login failed", "ctx", "https://s", "oc"), K8pkError::CommandFailed(_)));
}

fn ctx_item(name: &str, ns: Option<&str>) -> NamedItem {
    let mut inner = vec![("cluster", s("c")), ("user", s("u"))];
    if let Some(n) = ns {
        inner.push(("namespace", s(n)));
    }
    NamedItem { name: name.to_string(), rest: map(vec![("context", map(inner))]) }
}

#[test]
fn ocp_adopts_last_context() {
    let mut cfg = KubeConfig::default();
    cfg.contexts.push(ctx_item("a", None));
    cfg.contexts.push(ctx_item("b", Some("proj")));
    cfg.contexts.push(ctx_item("a", Some("dup")));
    cfg.contexts.push(ctx_item("mine", None));
    let ns = ocp_adopt_context(&mut cfg, "mine");
    assert_eq!(ns.as_deref(), Some("proj"));
    let names: Vec<&str> = cfg.contexts.iter().map(|c| c.name.as_str()).collect();
    assert_eq!(names, vec!["a", "mine"]);
    assert_eq!(cfg.current_context.as_deref(), Some("mine"));
}

#[test]
fn ocp_token_refresh() {
    assert_eq!(refreshed_token("  sha256~abc \n"), Some("sha256~abc".to_string()));
    assert_eq!(refreshed_token(" \n"), None);
    let mut cfg = KubeConfig::default();
    cfg.contexts.push(ctx_item("mine", None));
    cfg.users.push(NamedItem { name: "u".to_string(), rest: map(vec![("user", map(vec![("token", s("old"))]))]) });
    set_refreshed_token(&mut cfg, "mine", "new");
    let user = get(&cfg.users[0].rest, "user").unwrap();
    assert_eq!(str_of(get(user, "token")), Some("new".to_string()));
}

#[test]
fn rancher_proxy_lookup_decision() {
    assert!(rancher_needs_proxy_lookup("https://r.example.com", true));
    assert!(!rancher_needs_proxy_lookup("https://r.example.com/k8s/clusters/c-1", true));
    assert!(!rancher_needs_proxy_lookup("https://r.example.com", false));
}

#[test]
fn relogin_helpers() {
    assert_eq!(relogin_type_choice("ocp (OpenShift)"), Some(LoginType::Ocp));
    assert_eq!(relogin_type_choice("k8s (generic)"), None);
    assert_eq!(rancher_provider_choice("Active Directory"), "activedirectory");
    assert_eq!(rancher_provider_choice("auto-detect (try common providers)"), "auto");
    assert!(is_auth_failure("HTTP 401 Unauthorized", false));
    assert!(!is_auth_failure("oc login failed", false));
    assert!(is_auth_failure("oc login failed", true));
    assert_eq!(vault_relogin_server("https://r/k8s/clusters/c-1"), Some("https://r".to_string()));
    assert_eq!(vault_relogin_server("https://r"), None);
    assert_eq!(
        missing_vault_hint("rancher:x", Some("y:z")),
        "hint: no vault entry for this context (tried rancher:x). and y:z"
    );
    assert_eq!(login_type_name(LoginType::Gke), "gke");
    let auth = ReloginAuth::UserPass("u".to_string(), "p".to_string());
    let rancher = RancherRelogin { provider: "openldap".to_string(), cluster_server: "https://r/k8s/clusters/c-1".to_string() };
    let req = relogin_request(LoginType::Rancher, "https://r", "ctx", &auth, true, Some(&rancher));
    assert_eq!(req.login_type, Some(LoginType::Rancher));
    assert_eq!(req.name.as_deref(), Some("ctx"));
    assert_eq!(req.username.as_deref(), Some("u"));
    assert_eq!(req.auth, "userpass");
    assert!(req.insecure);
    assert_eq!(req.rancher_auth_provider, "openldap");
    assert_eq!(req.rancher_cluster_server.as_deref(), Some("https://r/k8s/clusters/c-1"));
}

#[test]
fn update_plan() {
    match plan_update("1.2.3", "vv1.2.3", true, false) {
        UpdateStep::Finished(r) => {
            assert!(!r.updated);
            assert_eq!(r.message, "k8pk is already up to date (v1.2.3)");
            assert_eq!(r.latest_version.as_deref(), Some("vv1.2.3"));
        }
        UpdateStep::Install => panic!("expected up to date"),
    }
    match plan_update("1.2.3", "v1.3.0", true, false) {
        UpdateStep::Finished(r) => {
            assert_eq!(r.message, "Current version: v1.2.3\nLatest version:  v1.3.0\nUpdate available!");
        }
        UpdateStep::Install => panic!("expected check only"),
    }
    assert!(matches!(plan_update("1.2.3", "v1.2.3", false, true), UpdateStep::Install));
    match plan_update("1.2.3", "v1.2.3", false, false) {
        UpdateStep::Finished(r) => assert_eq!(
            r.message,
            "k8pk is already at the latest version (v1.2.3). Use --force to reinstall anyway"
        ),
        UpdateStep::Install => panic!("expected finished"),
    }
    let done = installed_result("1.2.3", "v1.3.0");
    assert!(done.updated);
    assert_eq!(done.message, "Updated to v1.3.0");
}

#[test]
fn update_assets() {
    assert_eq!(platform_names("macos", "aarch64"), ("darwin", "arm64"));
    assert_eq!(platform_names("windows", "x86_64"), ("unknown", "amd64"));
    let names = vec![None, Some("k8pk-linux-arm64.tar.gz".to_string()), Some("k8pk-linux-amd64.tar.gz".to_string())];
    assert_eq!(select_asset(&names, "linux", "amd64").unwrap(), 2);
    match select_asset(&names, "darwin", "amd64") {
        Err(K8pkError::HttpError(m)) => assert_eq!(m, "no binary found for platform: darwin-amd64"),
        _ => panic!("expected error"),
    }
    assert_eq!(release_tag(Some("v1")).unwrap(), "v1");
    assert!(matches!(release_tag(None), Err(K8pkError::HttpError(_))));
}

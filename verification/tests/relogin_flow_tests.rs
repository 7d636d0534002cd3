use k8pk::login::{LoginType, Vault, VaultEntry};
use k8pk::login_config::{rancher_cluster_server, rancher_credential_source, rancher_offer_save, RancherCredSource};
use k8pk::relogin::ReloginAuth;
use k8pk::relogin_flow::{
    relogin_start, relogin_step, relogin_vault_event, ReloginAction, ReloginEvent, ReloginPhase, ReloginState,
};
use k8pk::strmap::StrMap;

fn entry(u: &str, p: &str, provider: Option<&str>) -> VaultEntry {
    VaultEntry { username: u.to_string(), password: p.to_string(), rancher_auth_provider: provider.map(|x| x.to_string()) }
}

fn vault_with(key: &str, e: VaultEntry) -> Vault {
    let mut m = StrMap::new();
    m.insert(key.to_string(), e);
    Vault::new("/tmp/vault.json".to_string(), m)
}

fn step(s: &ReloginState, e: ReloginEvent) -> (ReloginState, ReloginAction) {
    relogin_step(s, &e)
}

fn userpass(u: &str, p: &str) -> ReloginEvent {
    ReloginEvent::Credentials { auth: ReloginAuth::UserPass(u.to_string(), p.to_string()), target: None, provider: None }
}

#[test]
fn ocp_relogin_uses_vault_then_retries_once_and_remembers() {
    let server = "https://api.ocp.example.com:6443";
    let (s, a) = relogin_start(LoginType::Ocp, server, "dev", false, false);
    assert!(matches!(a, ReloginAction::LookUpVault));
    let vault = vault_with("ocp:https://api.ocp.example.com:6443", entry("old", "stale", None));
    let ev = relogin_vault_event(&vault, &s);
    let (s, a) = step(&s, ev);
    assert_eq!(s.phase, ReloginPhase::FromVault);
    match a {
        ReloginAction::LogIn(req) => {
            assert_eq!(req.username.as_deref(), Some("old"));
            assert_eq!(req.server, server);
        }
        _ => panic!("expected a vault login"),
    }
    let (s, a) = step(&s, ReloginEvent::LoginErr("401 Unauthorized".to_string()));
    assert!(matches!(a, ReloginAction::Prompt { token: false, ask_target: false, ask_provider: false }));
    let (s, a) = step(&s, userpass("alice", "bad"));
    assert!(matches!(a, ReloginAction::LogIn(_)));
    let (s, a) = step(&s, ReloginEvent::LoginErr("oc login failed: bad".to_string()));
    assert!(matches!(a, ReloginAction::AskRetry));
    let (s, a) = step(&s, ReloginEvent::RetryAnswer(true));
    assert!(matches!(a, ReloginAction::Prompt { .. }));
    let (s, a) = step(&s, userpass("alice", "good"));
    assert_eq!(s.phase, ReloginPhase::LastTry);
    assert!(matches!(a, ReloginAction::LogIn(_)));
    let (s, a) = step(&s, ReloginEvent::LoginOk);
    match a {
        ReloginAction::Remember { key, entry } => {
            assert_eq!(key, "ocp:https://api.ocp.example.com:6443");
            assert_eq!(entry.username, "alice");
            assert_eq!(entry.password, "good");
        }
        _ => panic!("expected the credentials to be remembered"),
    }
    let (s, a) = step(&s, ReloginEvent::Ack);
    assert!(matches!(a, ReloginAction::Finish));
    assert_eq!(s.phase, ReloginPhase::Done);
}

#[test]
fn relogin_second_failure_gives_up() {
    let (s, _) = relogin_start(LoginType::K8s, "https://k8s.example.com", "c", false, true);
    assert_eq!(s.phase, ReloginPhase::Asking);
    let tok = |t: &str| ReloginEvent::Credentials { auth: ReloginAuth::Token(t.to_string()), target: None, provider: None };
    let (s, _) = step(&s, tok("a"));
    let (s, a) = step(&s, ReloginEvent::LoginErr("HTTP 401".to_string()));
    assert!(matches!(a, ReloginAction::AskRetry));
    let (s, _) = step(&s, ReloginEvent::RetryAnswer(true));
    let (s, _) = step(&s, tok("b"));
    let (_, a) = step(&s, ReloginEvent::LoginErr("HTTP 401".to_string()));
    assert!(matches!(a, ReloginAction::Fail));
}

#[test]
fn relogin_other_errors_and_declined_retries_fail() {
    let (s, _) = relogin_start(LoginType::K8s, "https://k8s.example.com", "c", false, false);
    let (s, _) = step(&s, userpass("u", "p"));
    let (_, a) = step(&s, ReloginEvent::LoginErr("connection refused".to_string()));
    assert!(matches!(a, ReloginAction::Fail));
    let (s, _) = relogin_start(LoginType::K8s, "https://k8s.example.com", "c", false, false);
    let (s, _) = step(&s, userpass("u", "p"));
    let (s, _) = step(&s, ReloginEvent::LoginErr("401".to_string()));
    let (_, a) = step(&s, ReloginEvent::RetryAnswer(false));
    assert!(matches!(a, ReloginAction::Fail));
}

#[test]
fn k8s_relogin_success_is_not_remembered() {
    let (s, _) = relogin_start(LoginType::K8s, "https://k8s.example.com", "c", false, false);
    let (s, _) = step(&s, userpass("u", "p"));
    let (_, a) = step(&s, ReloginEvent::LoginOk);
    assert!(matches!(a, ReloginAction::Finish));
}

#[test]
fn rancher_relogin_hints_and_asks_for_server_when_not_a_proxy_url() {
    let server = "https://k8s.example.com:6443";
    let (s, _) = relogin_start(LoginType::Rancher, server, "ctx", true, false);
    let vault = vault_with("rancher:https://k8s.example.com:6443", entry("u", "p", Some("openldap")));
    let ev = relogin_vault_event(&vault, &s);
    let (s, a) = step(&s, ev);
    match a {
        ReloginAction::Hint(h) => assert!(h.contains("not a Rancher proxy URL")),
        _ => panic!("expected a hint"),
    }
    let (s, a) = step(&s, ReloginEvent::Ack);
    assert!(matches!(a, ReloginAction::Prompt { token: false, ask_target: true, ask_provider: true }));
    let creds = ReloginEvent::Credentials {
        auth: ReloginAuth::UserPass("bob".to_string(), "pw".to_string()),
        target: Some("https://rancher.example.com".to_string()),
        provider: Some("activedirectory".to_string()),
    };
    let (s, a) = step(&s, creds);
    match a {
        ReloginAction::LogIn(req) => {
            assert_eq!(req.server, "https://rancher.example.com");
            assert_eq!(req.rancher_auth_provider, "activedirectory");
            assert_eq!(req.rancher_cluster_server.as_deref(), Some(server));
            assert!(req.insecure);
        }
        _ => panic!("expected a login"),
    }
    let (_, a) = step(&s, ReloginEvent::LoginOk);
    match a {
        ReloginAction::Remember { key, entry } => {
            assert_eq!(key, "rancher:https://k8s.example.com:6443");
            assert_eq!(entry.rancher_auth_provider.as_deref(), Some("activedirectory"));
        }
        _ => panic!("expected the credentials to be remembered"),
    }
}

#[test]
fn rancher_relogin_from_vault_uses_proxy_base_and_legacy_key() {
    let server = "https://rancher.example.com/k8s/clusters/c-abc";
    let (s, _) = relogin_start(LoginType::Rancher, server, "ctx", false, false);
    let vault = vault_with("https://rancher.example.com:ctx", entry("u", "p", None));
    let ev = relogin_vault_event(&vault, &s);
    let (s, a) = step(&s, ev);
    assert_eq!(s.phase, ReloginPhase::FromVault);
    match a {
        ReloginAction::LogIn(req) => {
            assert_eq!(req.server, "https://rancher.example.com");
            assert_eq!(req.rancher_auth_provider, "local");
            assert_eq!(req.rancher_cluster_server.as_deref(), Some(server));
        }
        _ => panic!("expected a vault login"),
    }
    let (_, a) = step(&s, ReloginEvent::LoginOk);
    assert!(matches!(a, ReloginAction::Finish));
}

#[test]
fn relogin_missing_vault_entry_shows_hint_only_when_vault_has_keys() {
    let (s, _) = relogin_start(LoginType::Ocp, "https://api.x:6443", "c", false, false);
    let other = vault_with("ocp:https://elsewhere", entry("u", "p", None));
    let ev = relogin_vault_event(&other, &s);
    let (_, a) = step(&s, ev);
    match a {
        ReloginAction::Hint(h) => assert!(h.ends_with("(tried ocp:https://api.x:6443). Save with: k8pk login ... --use-vault")),
        _ => panic!("expected a hint"),
    }
    let empty = Vault::new("/tmp/v.json".to_string(), StrMap::new());
    let ev = relogin_vault_event(&empty, &s);
    let (_, a) = step(&s, ev);
    assert!(matches!(a, ReloginAction::Prompt { .. }));
}

#[test]
fn gke_relogin_logs_in_with_the_plugin() {
    let (s, a) = relogin_start(LoginType::Gke, "https://gke", "g", false, false);
    match a {
        ReloginAction::LogIn(req) => {
            assert_eq!(req.login_type, Some(LoginType::Gke));
            assert!(req.username.is_none() && req.token.is_none());
        }
        _ => panic!("expected a login"),
    }
    let (_, a) = step(&s, ReloginEvent::LoginOk);
    assert!(matches!(a, ReloginAction::Finish));
}

#[test]
fn rancher_credentials_come_from_token_then_given_then_vault_then_prompt() {
    let stored = || Some((entry("v", "w", Some("openldap")), "openldap".to_string()));
    assert!(matches!(rancher_credential_source(Some("tok"), true, true, true, stored()), RancherCredSource::Token(t) if t == "tok"));
    assert!(matches!(
        rancher_credential_source(None, true, false, true, stored()),
        RancherCredSource::Given { ask_username: false, ask_password: true }
    ));
    match rancher_credential_source(None, false, false, true, stored()) {
        RancherCredSource::Vault { entry, provider } => {
            assert_eq!(entry.username, "v");
            assert_eq!(provider, "openldap");
        }
        _ => panic!("expected the vault's credentials"),
    }
    assert!(matches!(rancher_credential_source(None, false, false, false, stored()), RancherCredSource::Prompt));
    assert!(matches!(rancher_credential_source(None, false, false, true, None), RancherCredSource::Prompt));
}

#[test]
fn rancher_cluster_server_falls_back_to_initial_url() {
    let found = Some("https://r.example.com/k8s/clusters/c-1");
    assert_eq!(rancher_cluster_server("https://k8s.example.com", true, found), "https://r.example.com/k8s/clusters/c-1");
    assert_eq!(rancher_cluster_server("https://k8s.example.com", true, None), "https://k8s.example.com");
    assert_eq!(rancher_cluster_server("https://k8s.example.com", false, found), "https://k8s.example.com");
    assert_eq!(
        rancher_cluster_server("https://r.example.com/k8s/clusters/c-2", true, found),
        "https://r.example.com/k8s/clusters/c-2"
    );
}

#[test]
fn rancher_offers_to_save_only_for_prompted_or_vault_credentials() {
    assert!(rancher_offer_save(false, false, true));
    assert!(!rancher_offer_save(true, false, true));
    assert!(!rancher_offer_save(false, true, true));
    assert!(!rancher_offer_save(false, false, false));
}

#[test]
fn rancher_retry_remembers_the_first_credentials_typed() {
    let server = "https://rancher.example.com/k8s/clusters/c-1";
    let (s, _) = relogin_start(LoginType::Rancher, server, "ctx", false, false);
    let empty = Vault::new("/tmp/v.json".to_string(), StrMap::new());
    let ev = relogin_vault_event(&empty, &s);
    let (s, a) = step(&s, ev);
    assert!(matches!(a, ReloginAction::Prompt { token: false, ask_target: false, ask_provider: true }));
    let first = ReloginEvent::Credentials {
        auth: ReloginAuth::UserPass("first".to_string(), "pw1".to_string()),
        target: None,
        provider: Some("local".to_string()),
    };
    let (s, _) = step(&s, first);
    let (s, _) = step(&s, ReloginEvent::LoginErr("401 Unauthorized".to_string()));
    let (s, _) = step(&s, ReloginEvent::RetryAnswer(true));
    let (s, a) = step(&s, userpass("second", "pw2"));
    match a {
        ReloginAction::LogIn(req) => assert_eq!(req.username.as_deref(), Some("second")),
        _ => panic!("expected a login"),
    }
    let (_, a) = step(&s, ReloginEvent::LoginOk);
    match a {
        ReloginAction::Remember { key, entry } => {
            assert_eq!(key, "rancher:https://rancher.example.com/k8s/clusters/c-1");
            assert_eq!(entry.username, "first");
            assert_eq!(entry.password, "pw1");
        }
        _ => panic!("expected the credentials to be remembered"),
    }
}

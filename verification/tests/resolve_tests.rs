use k8pk::error::K8pkError;
use k8pk::resolve::{
    ambiguous_context, info_output, login_auth_mode, login_server, resolve_context, ContextMatch, InfoOutput,
};
use k8pk::state::CurrentState;

fn names(v: &[&str]) -> Vec<String> {
    v.iter().map(|s| s.to_string()).collect()
}

#[test]
fn resolve_context_single_match() {
    let all = names(&["dev", "prod"]);
    match resolve_context("dev", &all) {
        Ok(ContextMatch::One(c)) => assert_eq!(c, "dev"),
        other => panic!("unexpected: {:?}", other),
    }
}

#[test]
fn resolve_context_several_matches() {
    let all = names(&["dev-cluster", "dev-local", "prod-cluster"]);
    match resolve_context("dev-*", &all) {
        Ok(ContextMatch::Several(v)) => assert_eq!(v, names(&["dev-cluster", "dev-local"])),
        other => panic!("unexpected: {:?}", other),
    }
}

#[test]
fn resolve_context_not_found_with_suggestions() {
    let all = names(&["production", "staging"]);
    match resolve_context("prodution", &all) {
        Err(K8pkError::ContextNotFoundSuggestions { pattern, suggestions }) => {
            assert_eq!(pattern, "prodution");
            assert_eq!(suggestions, "    - production");
        }
        other => panic!("unexpected: {:?}", other),
    }
}

#[test]
fn resolve_context_not_found_plain() {
    let all = names(&["alpha", "beta"]);
    match resolve_context("zzzzzzzzzz", &all) {
        Err(K8pkError::ContextNotFound(p)) => assert_eq!(p, "zzzzzzzzzz"),
        other => panic!("unexpected: {:?}", other),
    }
}

#[test]
fn ambiguous_context_message() {
    match ambiguous_context("dev", &names(&["dev-a", "dev-b"])) {
        K8pkError::InvalidArgument(m) => {
            assert_eq!(m, "'dev' matches multiple contexts: dev-a, dev-b. Be more specific.")
        }
        other => panic!("unexpected: {:?}", other),
    }
}

fn state(ctx: Option<&str>, display: Option<&str>, ns: Option<&str>) -> CurrentState {
    CurrentState::from_vars(ctx, display, ns, Some("2"), Some("/tmp/kc.yaml"))
}

#[test]
fn info_ctx_display_and_raw() {
    let s = state(Some("ctx-a"), Some("A"), None);
    match info_output("ctx", true, false, &s) {
        Ok(InfoOutput::Line(l)) => assert_eq!(l, "A"),
        other => panic!("unexpected: {:?}", other),
    }
    match info_output("ctx", false, false, &s) {
        Ok(InfoOutput::Line(l)) => assert_eq!(l, "ctx-a"),
        other => panic!("unexpected: {:?}", other),
    }
    assert!(matches!(info_output("ctx", true, true, &s), Err(K8pkError::InvalidArgument(_))));
}

#[test]
fn info_namespace_default_and_depth() {
    let s = state(Some("ctx-a"), None, None);
    match info_output("ns", false, false, &s) {
        Ok(InfoOutput::Line(l)) => assert_eq!(l, "(default)"),
        other => panic!("unexpected: {:?}", other),
    }
    match info_output("depth", false, false, &s) {
        Ok(InfoOutput::Line(l)) => assert_eq!(l, "2"),
        other => panic!("unexpected: {:?}", other),
    }
    assert!(matches!(info_output("all", false, false, &s), Ok(InfoOutput::Json)));
    assert!(matches!(info_output("ns", true, false, &s), Err(K8pkError::InvalidArgument(_))));
}

#[test]
fn info_outside_session_and_unknown() {
    let s = CurrentState::from_vars(None, None, None, None, None);
    assert!(matches!(info_output("ctx", false, false, &s), Err(K8pkError::NotInContext)));
    assert!(matches!(info_output("config", false, false, &s), Err(K8pkError::NotInContext)));
    match info_output("bogus", false, false, &s) {
        Err(K8pkError::InvalidArgument(m)) => {
            assert_eq!(m, "unknown info type: 'bogus'. Use: ctx, ns, depth, config, all")
        }
        other => panic!("unexpected: {:?}", other),
    }
}

#[test]
fn login_server_prefers_flag() {
    assert_eq!(login_server(Some("a".into()), Some("b".into())).unwrap(), "a");
    assert_eq!(login_server(None, Some("b".into())).unwrap(), "b");
    assert!(matches!(login_server(None, None), Err(K8pkError::InvalidArgument(_))));
}

#[test]
fn login_auth_mode_with_preset() {
    assert_eq!(login_auth_mode("auto", true, false).unwrap(), "exec");
    assert_eq!(login_auth_mode("token", true, false).unwrap(), "token");
    assert_eq!(login_auth_mode("auto", false, false).unwrap(), "auto");
    assert!(matches!(login_auth_mode("auto", true, true), Err(K8pkError::InvalidArgument(_))));
}

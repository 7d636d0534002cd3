use std::str::FromStr;
use k8pk::login::{
    apply_exec_preset, detect_login_type_from_url, infer_login_type_from_context, is_tls_error,
    parse_pass_store_output, parse_server_host_port, validate_auth, AuthMode, ExecAuthConfig,
    LoginRequest, LoginType,
};
use k8pk::rancher;
use k8pk::error::K8pkError;
use k8pk::yaml::YamlValue;

#[test]
fn test_detect_eks() {
    assert_eq!(
        detect_login_type_from_url("https://ABC123.eks.amazonaws.com"),
        Some(LoginType::K8s)
    );
}

#[test]
fn test_detect_gke() {
    assert_eq!(
        detect_login_type_from_url("https://35.1.2.3.container.googleapis.com"),
        Some(LoginType::Gke)
    );
    assert_eq!(
        detect_login_type_from_url("https://something.gke.io/path"),
        Some(LoginType::Gke)
    );
}

#[test]
fn test_detect_aks() {
    assert_eq!(
        detect_login_type_from_url("https://my-cluster.azmk8s.io"),
        Some(LoginType::K8s)
    );
}

#[test]
fn test_detect_rancher() {
    assert_eq!(
        detect_login_type_from_url("https://rancher.example.com/k8s/clusters/c-12345"),
        Some(LoginType::Rancher)
    );
}

#[test]
fn test_detect_ocp() {
    assert_eq!(
        detect_login_type_from_url("https://api.openshift.example.com:6443"),
        Some(LoginType::Ocp)
    );
    assert_eq!(
        detect_login_type_from_url("https://openshift.internal:8443"),
        Some(LoginType::Ocp)
    );
    assert_eq!(
        detect_login_type_from_url("https://api.ocp.example.com:6443"),
        Some(LoginType::Ocp)
    );
}

#[test]
fn test_detect_unknown() {
    assert_eq!(detect_login_type_from_url("https://10.0.0.1:8080"), None);
    assert_eq!(
        detect_login_type_from_url("https://api.cluster.example.com:6443"),
        None
    );
    assert_eq!(
        detect_login_type_from_url("https://10.120.119.137:6443"),
        None
    );
}

#[test]
fn test_login_type_from_str() {
    assert_eq!("ocp".parse::<LoginType>().unwrap(), LoginType::Ocp);
    assert_eq!("openshift".parse::<LoginType>().unwrap(), LoginType::Ocp);
    assert_eq!("k8s".parse::<LoginType>().unwrap(), LoginType::K8s);
    assert_eq!("kubernetes".parse::<LoginType>().unwrap(), LoginType::K8s);
    assert_eq!("gke".parse::<LoginType>().unwrap(), LoginType::Gke);
    assert_eq!("gcp".parse::<LoginType>().unwrap(), LoginType::Gke);
    assert_eq!("rancher".parse::<LoginType>().unwrap(), LoginType::Rancher);
    assert!("invalid".parse::<LoginType>().is_err());
}

#[test]
fn test_rancher_proxy_url_if_cluster_url() {
    assert_eq!(
        rancher::rancher_proxy_url_if_cluster_url(
            "https://r.example.com/k8s/clusters/c-abc123"
        ),
        Some("https://r.example.com/k8s/clusters/c-abc123".to_string())
    );
    assert_eq!(
        rancher::rancher_proxy_url_if_cluster_url(
            "https://r.example.com/k8s/clusters/c-abc123/api/v1/namespaces"
        ),
        Some("https://r.example.com/k8s/clusters/c-abc123".to_string())
    );
    assert!(rancher::rancher_proxy_url_if_cluster_url("https://apiserver:6443").is_none());
}

#[test]
fn test_rancher_auth_provider_path() {
    assert_eq!(
        rancher::rancher_auth_provider_path("local"),
        "localProviders/local"
    );
    assert_eq!(
        rancher::rancher_auth_provider_path("AD"),
        "activeDirectoryProviders/activedirectory"
    );
    assert_eq!(
        rancher::rancher_auth_provider_path("openldap"),
        "openLdapProviders/openldap"
    );
    assert_eq!(
        rancher::rancher_auth_provider_path("activeDirectoryProviders/corp"),
        "activeDirectoryProviders/corp"
    );
}

#[test]
fn test_parse_pass_store_output() {
    let m = parse_pass_store_output(
        "firstline\nusername: alice\npassword: bob\nrancher_auth_provider: openldap\n",
    );
    assert_eq!(m.get("__password__").map(|s| s.as_str()), Some("firstline"));
    assert_eq!(m.get("username").map(|s| s.as_str()), Some("alice"));
    assert_eq!(m.get("password").map(|s| s.as_str()), Some("bob"));
    assert_eq!(
        m.get("rancher_auth_provider").map(|s| s.as_str()),
        Some("openldap")
    );
    let m2 = parse_pass_store_output("x\nrancher_provider: activedirectory\n");
    assert_eq!(
        m2.get("rancher_provider").map(|s| s.as_str()),
        Some("activedirectory")
    );
}

#[test]
fn test_login_request_builder() {
    let req = LoginRequest::new("https://api.test.com:6443").with_token("my-token");
    assert_eq!(req.server, "https://api.test.com:6443");
    assert_eq!(req.token.as_deref(), Some("my-token"));
    assert!(req.username.is_none());
}

#[test]
fn test_is_tls_error_detection() {
    assert!(is_tls_error(
        "x509: certificate signed by unknown authority"
    ));
    assert!(is_tls_error("tls: failed to verify certificate"));
    assert!(is_tls_error("SSL handshake failed"));
    assert!(!is_tls_error("connection refused"));
}

#[test]
fn test_parse_server_host_port() {
    assert_eq!(
        parse_server_host_port("https://api.example.com:6443"),
        Some(("api.example.com".into(), 6443))
    );
    assert_eq!(
        parse_server_host_port("https://api.example.com"),
        Some(("api.example.com".into(), 443))
    );
    assert_eq!(
        parse_server_host_port("http://10.0.0.1:8080"),
        Some(("10.0.0.1".into(), 8080))
    );
}

#[test]
fn test_infer_login_type_from_context() {
    assert_eq!(
        infer_login_type_from_context("rancher-foo"),
        Some(LoginType::Rancher)
    );
    assert_eq!(
        infer_login_type_from_context("ocp-bar"),
        Some(LoginType::Ocp)
    );
    assert_eq!(
        infer_login_type_from_context("gke-baz"),
        Some(LoginType::Gke)
    );
    assert_eq!(infer_login_type_from_context("k8s-dev"), None);
}

#[test]
fn validate_auth_ocp_rejects_exec() {
    let err = validate_auth(
        LoginType::Ocp,
        None,
        None,
        None,
        None,
        None,
        AuthMode::Exec,
        Some("aws"),
    )
    .unwrap_err();
    assert!(err.message().contains("exec auth is only supported"));
}

#[test]
fn validate_auth_ocp_rejects_client_cert() {
    let cert = "/tmp/cert";
    let key = "/tmp/key";
    let err = validate_auth(
        LoginType::Ocp,
        None,
        None,
        None,
        Some(cert),
        Some(key),
        AuthMode::Auto,
        None,
    )
    .unwrap_err();
    assert!(err.message().contains("only supported for --type k8s"));
}

#[test]
fn validate_auth_gke_rejects_exec() {
    let err = validate_auth(
        LoginType::Gke,
        None,
        None,
        None,
        None,
        None,
        AuthMode::Exec,
        Some("gcloud"),
    )
    .unwrap_err();
    assert!(err.message().contains("not supported for --type gke"));
}

#[test]
fn validate_auth_rancher_rejects_client_cert() {
    let cert = "/tmp/cert";
    let key = "/tmp/key";
    let err = validate_auth(
        LoginType::Rancher,
        None,
        None,
        None,
        Some(cert),
        Some(key),
        AuthMode::Auto,
        None,
    )
    .unwrap_err();
    assert!(err.message().contains("not supported for --type rancher"));
}

#[test]
fn validate_auth_requires_both_cert_and_key() {
    let cert = "/tmp/cert";
    let err = validate_auth(
        LoginType::K8s,
        None,
        None,
        None,
        Some(cert),
        None,
        AuthMode::Auto,
        None,
    )
    .unwrap_err();
    assert!(err.message().contains("requires both"));
}

#[test]
fn validate_auth_token_mode_requires_token() {
    let err = validate_auth(
        LoginType::K8s,
        None,
        None,
        None,
        None,
        None,
        AuthMode::Token,
        None,
    )
    .unwrap_err();
    assert!(err.message().contains("requires --token"));
}

#[test]
fn validate_auth_rejects_multiple_methods() {
    let err = validate_auth(
        LoginType::K8s,
        Some("tok"),
        Some("user"),
        Some("pass"),
        None,
        None,
        AuthMode::Auto,
        None,
    )
    .unwrap_err();
    assert!(err.message().contains("multiple auth methods"));
}

#[test]
fn validate_auth_exec_mode_requires_command() {
    let err = validate_auth(
        LoginType::K8s,
        None,
        None,
        None,
        None,
        None,
        AuthMode::Exec,
        None,
    )
    .unwrap_err();
    assert!(err.message().contains("exec requires --exec-command"));
}

#[test]
fn validate_auth_k8s_token_ok() {
    assert!(validate_auth(
        LoginType::K8s,
        Some("tok"),
        None,
        None,
        None,
        None,
        AuthMode::Token,
        None
    )
    .is_ok());
}

#[test]
fn validate_auth_k8s_auto_single_method_ok() {
    assert!(validate_auth(
        LoginType::K8s,
        Some("tok"),
        None,
        None,
        None,
        None,
        AuthMode::Auto,
        None
    )
    .is_ok());
}

#[test]
fn test_rancher_server_base_url() {
    let (base, is_proxy) =
        rancher::rancher_server_base_url("https://r.example.com/k8s/clusters/c-abc/foo");
    assert_eq!(base, "https://r.example.com");
    assert!(is_proxy);

    let (base2, is_proxy2) = rancher::rancher_server_base_url("https://k8s.example.com:6443");
    assert_eq!(base2, "https://k8s.example.com:6443");
    assert!(!is_proxy2);
}

#[test]
fn test_apply_exec_preset_unknown() {
    let mut exec = ExecAuthConfig::default();
    let err = apply_exec_preset("foobar", None, None, None, &mut exec).unwrap_err();
    assert!(err.message().contains("unknown exec preset"));
}

#[test]
fn test_apply_exec_preset_aws_eks() {
    let mut exec = ExecAuthConfig::default();
    apply_exec_preset(
        "aws-eks",
        Some("my-cluster"),
        None,
        Some("us-west-2"),
        &mut exec,
    )
    .unwrap();
    assert_eq!(exec.command.as_deref(), Some("aws"));
    assert!(exec.args.contains(&"my-cluster".to_string()));
    assert!(exec.args.contains(&"us-west-2".to_string()));
}

#[test]
fn test_apply_exec_preset_aks() {
    let mut exec = ExecAuthConfig::default();
    apply_exec_preset("aks", None, Some("server-id-123"), None, &mut exec).unwrap();
    assert_eq!(exec.command.as_deref(), Some("kubelogin"));
    assert!(exec.args.contains(&"server-id-123".to_string()));
}

#[test]
fn validate_auth_userpass_requires_both() {
    let err = validate_auth(
        LoginType::K8s,
        None,
        Some("alice"),
        None,
        None,
        None,
        AuthMode::Auto,
        None,
    )
    .unwrap_err();
    let msg = err.message();
    assert!(
        msg.contains("requires both"),
        "expected 'requires both' in: {}",
        msg
    );
}

#[test]
fn validate_auth_userpass_only_password_fails() {
    let err = validate_auth(
        LoginType::K8s,
        None,
        None,
        Some("secret"),
        None,
        None,
        AuthMode::Auto,
        None,
    )
    .unwrap_err();
    assert!(err.message().contains("requires both"));
}

#[test]
fn test_parse_server_host_port_no_port() {
    assert_eq!(
        parse_server_host_port("myhost"),
        Some(("myhost".into(), 80))
    );
}

#[test]
fn test_login_request_with_credentials() {
    let req = LoginRequest::new("https://api.example.com").with_credentials("bob", "hunter2");
    assert_eq!(req.username.as_deref(), Some("bob"));
    assert_eq!(req.password.as_deref(), Some("hunter2"));
}

#[test]
fn test_auth_mode_from_str() {
    assert_eq!("auto".parse::<AuthMode>().unwrap(), AuthMode::Auto);
    assert_eq!("token".parse::<AuthMode>().unwrap(), AuthMode::Token);
    assert_eq!("userpass".parse::<AuthMode>().unwrap(), AuthMode::UserPass);
    assert_eq!("basic".parse::<AuthMode>().unwrap(), AuthMode::UserPass);
    assert_eq!(
        "client-cert".parse::<AuthMode>().unwrap(),
        AuthMode::ClientCert
    );
    assert_eq!("cert".parse::<AuthMode>().unwrap(), AuthMode::ClientCert);
    assert_eq!("exec".parse::<AuthMode>().unwrap(), AuthMode::Exec);
    assert!("not-a-mode".parse::<AuthMode>().is_err());
}

#[test]
fn test_rancher_auth_error_is_401() {
    assert!(rancher::rancher_auth_error_is_401(&K8pkError::LoginFailed(
        "401 Unauthorized".into()
    )));
    assert!(rancher::rancher_auth_error_is_401(&K8pkError::HttpError(
        "got 401".into()
    )));
    assert!(!rancher::rancher_auth_error_is_401(
        &K8pkError::InvalidArgument("bad".into())
    ));
    assert!(!rancher::rancher_auth_error_is_401(
        &K8pkError::LoginFailed("forbidden".into())
    ));
}

#[test]
fn test_build_exec_auth_requires_command() {
    let exec = ExecAuthConfig::default();
    let err = k8pk::login::build_exec_auth(&exec).unwrap_err();
    assert!(err
        .message()
        .contains("exec auth requires --exec-command"));
}

#[test]
fn test_build_exec_auth_with_args_and_env() {
    let exec = ExecAuthConfig {
        command: Some("aws".into()),
        args: vec!["eks".into(), "get-token".into()],
        env: vec!["AWS_PROFILE=prod".into()],
        api_version: None,
    };
    let val = k8pk::login::build_exec_auth(&exec).unwrap();
    let map = match &val {
        YamlValue::Mapping(m) => m,
        _ => panic!("expected a mapping"),
    };
    let get = |k: &str| {
        map.iter()
            .find(|e| matches!(&e.key, YamlValue::Str(s) if s == k))
            .map(|e| &e.value)
    };
    match get("command").unwrap() {
        YamlValue::Str(s) => assert_eq!(s, "aws"),
        _ => panic!("command is not a string"),
    }
    match get("args").unwrap() {
        YamlValue::Sequence(s) => assert_eq!(s.len(), 2),
        _ => panic!("args is not a sequence"),
    }
    match get("env").unwrap() {
        YamlValue::Sequence(s) => assert_eq!(s.len(), 1),
        _ => panic!("env is not a sequence"),
    }
}

#[test]
fn test_build_rancher_kubeconfig_structure() {
    let cfg = rancher::build_rancher_kubeconfig(
        "rancher-prod",
        "https://r.example.com/k8s/clusters/c-1",
        "tok-123",
        true,
    );
    assert_eq!(cfg.current_context.as_deref(), Some("rancher-prod"));
    assert_eq!(cfg.contexts.len(), 1);
    assert_eq!(cfg.clusters.len(), 1);
    assert_eq!(cfg.users.len(), 1);
    assert_eq!(cfg.contexts[0].name, "rancher-prod");

    let text = format!("{:?}", cfg);
    assert!(text.contains("https://r.example.com/k8s/clusters/c-1"));
    assert!(text.contains("tok-123"));
    assert!(text.contains("insecure-skip-tls-verify"));
}

#[test]
fn test_build_rancher_kubeconfig_secure_has_no_insecure_flag() {
    let cfg = rancher::build_rancher_kubeconfig(
        "rancher-dev",
        "https://r.example.com/k8s/clusters/c-2",
        "tok",
        false,
    );
    let text = format!("{:?}", cfg);
    assert!(!text.contains("insecure-skip-tls-verify"));
}

#[test]
fn from_str_parses_like_the_parsers() {
    assert!(matches!(k8pk::login::LoginType::from_str("OpenShift"), Ok(k8pk::login::LoginType::Ocp)));
    assert!(matches!(k8pk::login::AuthMode::from_str("BASIC"), Ok(k8pk::login::AuthMode::UserPass)));
    match k8pk::login::AuthMode::from_str("nope") {
        Err(k8pk::error::K8pkError::InvalidArgument(m)) => {
            assert_eq!(m, "unknown auth mode: 'nope'. Use: auto, token, userpass, client-cert, exec")
        }
        other => panic!("unexpected: {:?}", other),
    }
}

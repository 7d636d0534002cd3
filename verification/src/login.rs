//! Login: cluster types, authentication modes, credential checks and the
//! request a login works from.

use vstd::prelude::*;
use crate::error::{ErrorKind, K8pkError};
use crate::strmap::StrMap;
use crate::yaml::{entries_view, lemma_mapping_view, lemma_sequence_view, str_entry, YamlEntry, YamlValue, YamlView};
use crate::text::{
    chars_find, chars_join, chars_of, chars_rsplit_once, chars_split_once, chars_strip_prefix,
    chars_sub, chars_trim, concat, contains_seq, find_char, has_prefix, join_seq, lowercase,
    owned, rsplit_once_char, split_once_char, str_contains, str_eq, str_starts_with, string_of,
    strip_prefix, to_lowercase, trim, lines, chars_lines, views, parse_decimal, parsed_decimal,
};
use crate::kubeconfig::opt_str;

verus! {

/// Type of cluster to log in to.
#[derive(Debug, Clone, Copy, PartialEq, Eq, Structural)]
pub enum LoginType {
    /// OpenShift Container Platform.
    Ocp,
    /// Regular Kubernetes cluster.
    K8s,
    /// Google Kubernetes Engine.
    Gke,
    /// Rancher-managed cluster.
    Rancher,
}

/// Authentication mode for login.
#[derive(Debug, Clone, Copy, PartialEq, Eq, Structural)]
pub enum AuthMode {
    Auto,
    Token,
    UserPass,
    ClientCert,
    Exec,
}

/// The login type a (lower-cased) name stands for.
pub open spec fn login_type_named(s: Seq<char>) -> Option<LoginType> {
    if s == "ocp"@ || s == "openshift"@ {
        Some(LoginType::Ocp)
    } else if s == "k8s"@ || s == "kubernetes"@ || s == "kube"@ {
        Some(LoginType::K8s)
    } else if s == "gke"@ || s == "gcp"@ {
        Some(LoginType::Gke)
    } else if s == "rancher"@ {
        Some(LoginType::Rancher)
    } else {
        None
    }
}

/// The auth mode a (lower-cased) name stands for.
pub open spec fn auth_mode_named(s: Seq<char>) -> Option<AuthMode> {
    if s == "auto"@ {
        Some(AuthMode::Auto)
    } else if s == "token"@ {
        Some(AuthMode::Token)
    } else if s == "userpass"@ || s == "basic"@ {
        Some(AuthMode::UserPass)
    } else if s == "client-cert"@ || s == "cert"@ {
        Some(AuthMode::ClientCert)
    } else if s == "exec"@ {
        Some(AuthMode::Exec)
    } else {
        None
    }
}

fn login_type_of_name(s: &str) -> (r: Option<LoginType>)
    ensures
        r == login_type_named(s@),
{
    if str_eq(s, "ocp") || str_eq(s, "openshift") {
        Some(LoginType::Ocp)
    } else if str_eq(s, "k8s") || str_eq(s, "kubernetes") || str_eq(s, "kube") {
        Some(LoginType::K8s)
    } else if str_eq(s, "gke") || str_eq(s, "gcp") {
        Some(LoginType::Gke)
    } else if str_eq(s, "rancher") {
        Some(LoginType::Rancher)
    } else {
        None
    }
}

/// Parses a login type, case-insensitively.
pub fn parse_login_type(s: &str) -> (r: Result<LoginType, K8pkError>)
    ensures
        match login_type_named(lowercase(s@)) {
            Some(t) => r == Ok::<LoginType, K8pkError>(t),
            None => r matches Err(e) && e.is(
                ErrorKind::InvalidArgument,
                "unknown login type: '"@ + s@ + "'. Use: ocp, k8s, gke, rancher"@,
            ),
        },
{
    let lower = to_lowercase(s);
    match login_type_of_name(lower.as_str()) {
        Some(t) => Ok(t),
        None => Err(K8pkError::InvalidArgument(
            concat(concat("unknown login type: '", s).as_str(), "'. Use: ocp, k8s, gke, rancher"),
        )),
    }
}

/// A login type stored for a context, case-insensitively; `None` when the
/// name is not known.
pub fn parse_stored_type(s: &str) -> (r: Option<LoginType>)
    ensures
        r == login_type_named(lowercase(s@)),
{
    let lower = to_lowercase(s);
    login_type_of_name(lower.as_str())
}

impl std::str::FromStr for LoginType {
    type Err = K8pkError;

    fn from_str(s: &str) -> (r: Result<LoginType, K8pkError>)
        ensures
            match login_type_named(lowercase(s@)) {
                Some(t) => r == Ok::<LoginType, K8pkError>(t),
                None => r matches Err(e) && e.is(
                    ErrorKind::InvalidArgument,
                    "unknown login type: '"@ + s@ + "'. Use: ocp, k8s, gke, rancher"@,
                ),
            },
    {
        parse_login_type(s)
    }
}

/// Parses an auth mode, case-insensitively.
pub fn parse_auth_mode(s: &str) -> (r: Result<AuthMode, K8pkError>)
    ensures
        match auth_mode_named(lowercase(s@)) {
            Some(m) => r == Ok::<AuthMode, K8pkError>(m),
            None => r matches Err(e) && e.is(
                ErrorKind::InvalidArgument,
                "unknown auth mode: '"@ + s@ + "'. Use: auto, token, userpass, client-cert, exec"@,
            ),
        },
{
    let lower = to_lowercase(s);
    let l = lower.as_str();
    if str_eq(l, "auto") {
        Ok(AuthMode::Auto)
    } else if str_eq(l, "token") {
        Ok(AuthMode::Token)
    } else if str_eq(l, "userpass") || str_eq(l, "basic") {
        Ok(AuthMode::UserPass)
    } else if str_eq(l, "client-cert") || str_eq(l, "cert") {
        Ok(AuthMode::ClientCert)
    } else if str_eq(l, "exec") {
        Ok(AuthMode::Exec)
    } else {
        Err(K8pkError::InvalidArgument(
            concat(
                concat("unknown auth mode: '", s).as_str(),
                "'. Use: auto, token, userpass, client-cert, exec",
            ),
        ))
    }
}

impl std::str::FromStr for AuthMode {
    type Err = K8pkError;

    fn from_str(s: &str) -> (r: Result<AuthMode, K8pkError>)
        ensures
            match auth_mode_named(lowercase(s@)) {
                Some(m) => r == Ok::<AuthMode, K8pkError>(m),
                None => r matches Err(e) && e.is(
                    ErrorKind::InvalidArgument,
                    "unknown auth mode: '"@ + s@ + "'. Use: auto, token, userpass, client-cert, exec"@,
                ),
            },
    {
        parse_auth_mode(s)
    }
}

/// The login type that a (lower-cased) server URL suggests.
pub open spec fn login_type_for_url(lower: Seq<char>) -> Option<LoginType> {
    if contains_seq(lower, ".eks.amazonaws.com"@) {
        Some(LoginType::K8s)
    } else if contains_seq(lower, ".container.googleapis.com"@) || contains_seq(lower, "gke.io"@) {
        Some(LoginType::Gke)
    } else if contains_seq(lower, ".azmk8s.io"@) || contains_seq(lower, "azure"@) {
        Some(LoginType::K8s)
    } else if contains_seq(lower, "rancher"@) || contains_seq(lower, "/k8s/clusters/"@) {
        Some(LoginType::Rancher)
    } else if contains_seq(lower, "openshift"@) || contains_seq(lower, "ocp"@) {
        Some(LoginType::Ocp)
    } else {
        None
    }
}

/// How a login's cluster type is settled: the type asked for, or with
/// `auto` the one the URL shows (`true`: detected), or else asked on a
/// terminal (`None`); without a terminal that is an error.
pub open spec fn login_type_resolution(requested: Seq<char>, server: Seq<char>, stdin_tty: bool) -> Option<Option<(LoginType, bool)>> {
    if requested != "auto"@ {
        match login_type_named(lowercase(requested)) {
            Some(t) => Some(Some((t, false))),
            None => None,
        }
    } else {
        match login_type_for_url(lowercase(server)) {
            Some(t) => Some(Some((t, true))),
            None => if stdin_tty {
                Some(None)
            } else {
                None
            },
        }
    }
}

/// Settles a login's cluster type as `login_type_resolution` says; the
/// errors are those of `parse_login_type`, and without a terminal the one
/// asking for `--type`.
pub fn resolve_login_type_step(requested: &str, server: &str, stdin_tty: bool) -> (r: Result<Option<(LoginType, bool)>, K8pkError>)
    ensures
        match login_type_resolution(requested@, server@, stdin_tty) {
            Some(x) => r == Ok::<Option<(LoginType, bool)>, K8pkError>(x),
            None => if requested@ != "auto"@ {
                r matches Err(e) && e.is(
                    ErrorKind::InvalidArgument,
                    "unknown login type: '"@ + requested@ + "'. Use: ocp, k8s, gke, rancher"@,
                )
            } else {
                r matches Err(e) && e.is(
                    ErrorKind::InvalidArgument,
                    "could not auto-detect cluster type from server URL; specify --type explicitly (ocp, k8s, gke, rancher)"@,
                )
            },
        },
{
    if !str_eq(requested, "auto") {
        return match parse_login_type(requested) {
            Ok(t) => Ok(Some((t, false))),
            Err(e) => Err(e),
        };
    }
    match detect_login_type_from_url(server) {
        Some(t) => Ok(Some((t, true))),
        None => if stdin_tty {
            Ok(None)
        } else {
            Err(
                K8pkError::InvalidArgument(
                    owned(
                        "could not auto-detect cluster type from server URL; specify --type explicitly (ocp, k8s, gke, rancher)",
                    ),
                ),
            )
        },
    }
}

/// The cluster type picked from the login menu.
pub fn login_type_menu_choice(choice: &str) -> (r: LoginType)
    ensures
        r == (if choice@ == "ocp (OpenShift)"@ {
            LoginType::Ocp
        } else if choice@ == "gke (Google)"@ {
            LoginType::Gke
        } else if choice@ == "rancher"@ {
            LoginType::Rancher
        } else {
            LoginType::K8s
        }),
{
    if str_eq(choice, "ocp (OpenShift)") {
        LoginType::Ocp
    } else if str_eq(choice, "gke (Google)") {
        LoginType::Gke
    } else if str_eq(choice, "rancher") {
        LoginType::Rancher
    } else {
        LoginType::K8s
    }
}

/// A credential test cannot go with a dry run, which writes nothing to test.
pub fn test_dry_run_check(test: bool, dry_run: bool) -> (r: Result<(), K8pkError>)
    ensures
        test && dry_run ==> (r matches Err(e) && e.is(ErrorKind::InvalidArgument, "--test cannot be used with --dry-run"@)),
        !(test && dry_run) ==> r is Ok,
{
    if test && dry_run {
        Err(K8pkError::InvalidArgument(owned("--test cannot be used with --dry-run")))
    } else {
        Ok(())
    }
}

/// Auto-detects the login type from a server URL, case-insensitively;
/// `None` when the URL matches no known pattern.
pub fn detect_login_type_from_url(server: &str) -> (r: Option<LoginType>)
    ensures
        r == login_type_for_url(lowercase(server@)),
{
    let lower = to_lowercase(server);
    let l = lower.as_str();
    if str_contains(l, ".eks.amazonaws.com") {
        return Some(LoginType::K8s);
    }
    if str_contains(l, ".container.googleapis.com") || str_contains(l, "gke.io") {
        return Some(LoginType::Gke);
    }
    if str_contains(l, ".azmk8s.io") || str_contains(l, "azure") {
        return Some(LoginType::K8s);
    }
    if str_contains(l, "rancher") || str_contains(l, "/k8s/clusters/") {
        return Some(LoginType::Rancher);
    }
    if str_contains(l, "openshift") || str_contains(l, "ocp") {
        return Some(LoginType::Ocp);
    }
    None
}

/// The login type that a context's name prefix gives.
pub open spec fn login_type_for_context(name: Seq<char>) -> Option<LoginType> {
    if has_prefix(name, "rancher-"@) {
        Some(LoginType::Rancher)
    } else if has_prefix(name, "ocp-"@) {
        Some(LoginType::Ocp)
    } else if has_prefix(name, "gke-"@) {
        Some(LoginType::Gke)
    } else {
        None
    }
}

/// Infers the login type from the prefix k8pk gives context names.
pub fn infer_login_type_from_context(context_name: &str) -> (r: Option<LoginType>)
    ensures
        r == login_type_for_context(context_name@),
{
    if str_starts_with(context_name, "rancher-") {
        Some(LoginType::Rancher)
    } else if str_starts_with(context_name, "ocp-") {
        Some(LoginType::Ocp)
    } else if str_starts_with(context_name, "gke-") {
        Some(LoginType::Gke)
    } else {
        None
    }
}

/// The login type for re-logging in to a context: the one stored for it,
/// else the one its name suggests, else the one its server URL suggests.
pub open spec fn relogin_type_for(stored: Option<Seq<char>>, context: Seq<char>, server: Seq<char>) -> Option<LoginType> {
    let from_stored = match stored {
        Some(s) => login_type_named(lowercase(s)),
        None => None,
    };
    if from_stored is Some {
        from_stored
    } else if login_type_for_context(context) is Some {
        login_type_for_context(context)
    } else {
        login_type_for_url(lowercase(server))
    }
}

/// Chooses the login type for a re-login.
pub fn relogin_type(stored: Option<&str>, context: &str, server: &str) -> (r: Option<LoginType>)
    ensures
        r == relogin_type_for(
            match stored {
                Some(s) => Some(s@),
                None => None,
            },
            context@,
            server@,
        ),
{
    let from_stored = match stored {
        Some(s) => match parse_login_type(s) {
            Ok(t) => Some(t),
            Err(_) => None,
        },
        None => None,
    };
    if from_stored.is_some() {
        return from_stored;
    }
    let from_name = infer_login_type_from_context(context);
    if from_name.is_some() {
        return from_name;
    }
    detect_login_type_from_url(server)
}

// ---------------------------------------------------------------------------
// Server URLs
// ---------------------------------------------------------------------------

/// std's `u16::from_str`: an optional `+`, then decimal digits whose value
/// fits in 16 bits.
pub open spec fn parsed_u16(s: Seq<char>) -> Option<u16> {
    match parsed_decimal(s, 65535) {
        Some(v) => Some(v as u16),
        None => None,
    }
}

/// Parses a decimal `u16` as std's `str::parse::<u16>` does.
pub fn parse_u16(s: &[char]) -> (r: Option<u16>)
    ensures
        r == parsed_u16(s@),
{
    match parse_decimal(s, 65535) {
        Some(v) => Some(v as u16),
        None => None,
    }
}

/// The part of a URL before its path.
pub open spec fn authority_of(s: Seq<char>) -> Seq<char> {
    match find_char(s, '/') {
        Some(k) => s.subrange(0, k),
        None => s,
    }
}

/// Host and port of a server URL: after an `https://` or `http://` scheme,
/// the authority's `host:port` when the port is a number, else the whole
/// authority with port 443 for `https://` and 80 otherwise.
pub open spec fn server_host_port(server: Seq<char>) -> (Seq<char>, u16) {
    let after = match strip_prefix(server, "https://"@) {
        Some(r) => r,
        None => match strip_prefix(server, "http://"@) {
            Some(r) => r,
            None => server,
        },
    };
    let authority = authority_of(after);
    let default_port: u16 = if has_prefix(server, "https://"@) { 443 } else { 80 };
    match rsplit_once_char(authority, ':') {
        Some((h, p)) => match parsed_u16(p) {
            Some(port) => (h, port),
            None => (authority, default_port),
        },
        None => (authority, default_port),
    }
}

/// Splits a server URL into host and port.
pub fn parse_server_host_port(server: &str) -> (r: Option<(String, u16)>)
    ensures
        r matches Some((h, p)) && (h@, p) == server_host_port(server@),
{
    let chars = chars_of(server);
    let https = chars_of("https://");
    let http = chars_of("http://");
    let after = match chars_strip_prefix(&chars, &https) {
        Some(r) => r,
        None => match chars_strip_prefix(&chars, &http) {
            Some(r) => r,
            None => chars_of(server),
        },
    };
    let slash = vec!['/'];
    assert(slash@ =~= seq!['/']);
    let authority = match chars_find(&after, &slash) {
        Some(k) => {
            proof {
                crate::text::lemma_find_from(after@, slash@, 0);
            }
            chars_sub(&after, 0, k)
        },
        None => after,
    };
    let default_port: u16 = if str_starts_with(server, "https://") { 443 } else { 80 };
    match chars_rsplit_once(&authority, ':') {
        Some((h, p)) => match parse_u16(&p) {
            Some(port) => {
                return Some((string_of(&h), port));
            },
            None => {},
        },
        None => {},
    }
    Some((string_of(&authority), default_port))
}

// ---------------------------------------------------------------------------
// Errors from kubectl
// ---------------------------------------------------------------------------

/// The phrases that mark a TLS problem in kubectl's output.
pub open spec fn tls_patterns() -> Seq<Seq<char>> {
    seq![
        "certificate"@,
        "x509"@,
        "tls:"@,
        "certificate signed by unknown authority"@,
        "certificate is not trusted"@,
        "certificate has expired"@,
        "tls: failed to verify"@,
        "certificate is valid for"@,
        "ssl"@,
    ]
}

/// Whether kubectl's error output speaks of a TLS problem (case-insensitive).
pub fn is_tls_error(stderr: &str) -> (r: bool)
    ensures
        r == exists|i: int| 0 <= i < tls_patterns().len() && contains_seq(lowercase(stderr@), #[trigger] tls_patterns()[i]),
{
    let lower = to_lowercase(stderr);
    let l = lower.as_str();
    let pats: [&str; 9] = [
        "certificate",
        "x509",
        "tls:",
        "certificate signed by unknown authority",
        "certificate is not trusted",
        "certificate has expired",
        "tls: failed to verify",
        "certificate is valid for",
        "ssl",
    ];
    let mut i: usize = 0;
    while i < 9
        invariant
            i <= 9,
            l@ == lowercase(stderr@),
            forall|k: int| 0 <= k < 9 ==> (#[trigger] pats@[k])@ == tls_patterns()[k],
            forall|k: int| 0 <= k < i ==> !contains_seq(lowercase(stderr@), #[trigger] tls_patterns()[k]),
        decreases 9 - i,
    {
        let p: &str = pats[i];
        assert(p@ == tls_patterns()[i as int]);
        assert(l@ == lowercase(stderr@));
        if str_contains(l, p) {
            assert(contains_seq(lowercase(stderr@), tls_patterns()[i as int]));
            return true;
        }
        i = i + 1;
    }
    false
}


// ---------------------------------------------------------------------------
// Checking the credentials of a login
// ---------------------------------------------------------------------------

/// The names of the authentication methods that are present.
pub open spec fn method_names(token: bool, userpass: bool, cert: bool, exec: bool) -> Seq<Seq<char>> {
    (if token { seq!["token"@] } else { Seq::empty() }) + (if userpass { seq!["userpass"@] } else { Seq::empty() })
        + (if cert { seq!["client-cert"@] } else { Seq::empty() }) + (if exec { seq!["exec"@] } else { Seq::empty() })
}

/// Why a combination of credentials cannot be used for a login, if it cannot.
pub open spec fn auth_problem(
    login_type: LoginType,
    token: bool,
    username: bool,
    password: bool,
    cert: bool,
    key: bool,
    mode: AuthMode,
    exec: bool,
) -> Option<Seq<char>> {
    let userpass = username || password;
    let both = cert && key;
    let methods = method_names(token, userpass, both, exec);
    if cert != key {
        Some("client certificate auth requires both --client-certificate and --client-key"@)
    } else if login_type == LoginType::Ocp && (cert || key) {
        Some("client certificate auth is only supported for --type k8s"@)
    } else if login_type == LoginType::Ocp && mode == AuthMode::Exec {
        Some("exec auth is only supported for --type k8s"@)
    } else if login_type == LoginType::Gke && (cert || key) {
        Some("client certificate auth is not supported for --type gke (uses gcloud auth plugin)"@)
    } else if login_type == LoginType::Gke && mode == AuthMode::Exec {
        Some("exec auth is not supported for --type gke (uses gcloud auth plugin)"@)
    } else if login_type == LoginType::Rancher && (cert || key) {
        Some("client certificate auth is not supported for --type rancher"@)
    } else if login_type == LoginType::Rancher && mode == AuthMode::Exec {
        Some("exec auth is not supported for --type rancher"@)
    } else if userpass && (!username || !password) {
        Some("username/password auth requires both --username and --password (or use --pass-entry)"@)
    } else {
        match mode {
            AuthMode::Auto => if methods.len() > 1 {
                Some(
                    "multiple auth methods provided: "@ + join_seq(methods, ", "@)
                        + "; use only one (or set --auth to choose)"@,
                )
            } else {
                None
            },
            AuthMode::Token => if !token {
                Some("auth mode token requires --token or --pass-entry"@)
            } else if userpass || both || exec {
                Some("auth mode token does not allow other auth options"@)
            } else {
                None
            },
            AuthMode::UserPass => if token || both || exec {
                Some("auth mode userpass does not allow other auth options"@)
            } else {
                None
            },
            AuthMode::ClientCert => if !both {
                Some("auth mode client-cert requires --client-certificate and --client-key"@)
            } else if token || userpass || exec {
                Some("auth mode client-cert does not allow other auth options"@)
            } else {
                None
            },
            AuthMode::Exec => if !exec {
                Some(
                    "auth mode exec requires --exec-command (use repeated --exec-arg and --exec-env KEY=VALUE as needed)"@,
                )
            } else if token || userpass || both {
                Some("auth mode exec does not allow other auth options"@)
            } else {
                None
            },
        }
    }
}

fn push_name(v: &mut Vec<Vec<char>>, name: &str)
    ensures
        final(v)@.map_values(|x: Vec<char>| x@) == old(v)@.map_values(|x: Vec<char>| x@).push(name@),
{
    let ghost before = v@;
    v.push(chars_of(name));
    assert(v@.map_values(|x: Vec<char>| x@) =~= before.map_values(|x: Vec<char>| x@).push(name@));
}

fn invalid(msg: &str) -> (r: Result<(), K8pkError>)
    ensures
        r matches Err(e) && e.is(ErrorKind::InvalidArgument, msg@),
{
    Err(K8pkError::InvalidArgument(owned(msg)))
}

/// Checks that the credentials given for a login fit together and fit the
/// login type and auth mode; the error names the first problem.
pub fn validate_auth(
    login_type: LoginType,
    token: Option<&str>,
    username: Option<&str>,
    password: Option<&str>,
    client_certificate: Option<&str>,
    client_key: Option<&str>,
    auth_mode: AuthMode,
    exec_command: Option<&str>,
) -> (r: Result<(), K8pkError>)
    ensures
        match auth_problem(
            login_type,
            token is Some,
            username is Some,
            password is Some,
            client_certificate is Some,
            client_key is Some,
            auth_mode,
            exec_command is Some,
        ) {
            Some(m) => r matches Err(e) && e.is(ErrorKind::InvalidArgument, m),
            None => r is Ok,
        },
{
    let cert = client_certificate.is_some();
    let key = client_key.is_some();
    if cert != key {
        return invalid("client certificate auth requires both --client-certificate and --client-key");
    }
    if login_type == LoginType::Ocp && (cert || key) {
        return invalid("client certificate auth is only supported for --type k8s");
    }
    if login_type == LoginType::Ocp && auth_mode == AuthMode::Exec {
        return invalid("exec auth is only supported for --type k8s");
    }
    if login_type == LoginType::Gke && (cert || key) {
        return invalid("client certificate auth is not supported for --type gke (uses gcloud auth plugin)");
    }
    if login_type == LoginType::Gke && auth_mode == AuthMode::Exec {
        return invalid("exec auth is not supported for --type gke (uses gcloud auth plugin)");
    }
    if login_type == LoginType::Rancher && (cert || key) {
        return invalid("client certificate auth is not supported for --type rancher");
    }
    if login_type == LoginType::Rancher && auth_mode == AuthMode::Exec {
        return invalid("exec auth is not supported for --type rancher");
    }
    let has_token = token.is_some();
    let has_userpass = username.is_some() || password.is_some();
    let has_cert = cert && key;
    let has_exec = exec_command.is_some();
    if has_userpass && (username.is_none() || password.is_none()) {
        return invalid("username/password auth requires both --username and --password (or use --pass-entry)");
    }
    match auth_mode {
        AuthMode::Auto => {
            let mut detail: Vec<Vec<char>> = Vec::new();
            assert(detail@.map_values(|x: Vec<char>| x@) =~= Seq::<Seq<char>>::empty());
            if has_token {
                push_name(&mut detail, "token");
            }
            if has_userpass {
                push_name(&mut detail, "userpass");
            }
            if has_cert {
                push_name(&mut detail, "client-cert");
            }
            if has_exec {
                push_name(&mut detail, "exec");
            }
            assert(detail@.map_values(|x: Vec<char>| x@) =~= method_names(has_token, has_userpass, has_cert, has_exec));
            if detail.len() > 1 {
                let sep = chars_of(", ");
                let joined = string_of(&chars_join(&detail, &sep));
                let msg = concat(
                    concat("multiple auth methods provided: ", joined.as_str()).as_str(),
                    "; use only one (or set --auth to choose)",
                );
                return Err(K8pkError::InvalidArgument(msg));
            }
        },
        AuthMode::Token => {
            if !has_token {
                return invalid("auth mode token requires --token or --pass-entry");
            }
            if has_userpass || has_cert || has_exec {
                return invalid("auth mode token does not allow other auth options");
            }
        },
        AuthMode::UserPass => {
            if has_token || has_cert || has_exec {
                return invalid("auth mode userpass does not allow other auth options");
            }
        },
        AuthMode::ClientCert => {
            if !has_cert {
                return invalid("auth mode client-cert requires --client-certificate and --client-key");
            }
            if has_token || has_userpass || has_exec {
                return invalid("auth mode client-cert does not allow other auth options");
            }
        },
        AuthMode::Exec => {
            if !has_exec {
                return invalid(
                    "auth mode exec requires --exec-command (use repeated --exec-arg and --exec-env KEY=VALUE as needed)",
                );
            }
            if has_token || has_userpass || has_cert {
                return invalid("auth mode exec does not allow other auth options");
            }
        },
    }
    Ok(())
}


// ---------------------------------------------------------------------------
// Exec-based authentication
// ---------------------------------------------------------------------------

/// Exec-based authentication configuration (for EKS, GKE, AKS, custom).
#[derive(Clone, Debug)]
pub struct ExecAuthConfig {
    pub command: Option<String>,
    pub args: Vec<String>,
    pub env: Vec<String>,
    pub api_version: Option<String>,
}

/// The content of an exec configuration.
pub struct ExecAuthView {
    pub command: Option<Seq<char>>,
    pub args: Seq<Seq<char>>,
    pub env: Seq<Seq<char>>,
    pub api_version: Option<Seq<char>>,
}

impl View for ExecAuthConfig {
    type V = ExecAuthView;

    open spec fn view(&self) -> ExecAuthView {
        ExecAuthView {
            command: crate::kubeconfig::opt_str(self.command),
            args: crate::text::views(self.args@),
            env: crate::text::views(self.env@),
            api_version: crate::kubeconfig::opt_str(self.api_version),
        }
    }
}

impl Default for ExecAuthConfig {
    fn default() -> (r: ExecAuthConfig)
        ensures
            r@ == (ExecAuthView { command: None, args: Seq::empty(), env: Seq::empty(), api_version: None }),
    {
        let r = ExecAuthConfig { command: None, args: Vec::new(), env: Vec::new(), api_version: None };
        assert(r@.args =~= Seq::<Seq<char>>::empty());
        assert(r@.env =~= Seq::<Seq<char>>::empty());
        r
    }
}

/// The exec configuration a preset sets up, or the message of the error.
pub open spec fn exec_preset(
    preset: Seq<char>,
    cluster: Option<Seq<char>>,
    server_id: Option<Seq<char>>,
    region: Option<Seq<char>>,
    e: ExecAuthView,
) -> Result<ExecAuthView, Seq<char>> {
    if preset == "aws-eks"@ {
        match cluster {
            None => Err("aws-eks preset requires --exec-cluster"@),
            Some(c) => Ok(
                ExecAuthView {
                    command: Some("aws"@),
                    args: seq!["eks"@, "get-token"@, "--cluster-name"@, c] + match region {
                        Some(r) => seq!["--region"@, r],
                        None => Seq::empty(),
                    },
                    ..e
                },
            ),
        }
    } else if preset == "gke"@ {
        Ok(ExecAuthView { command: Some("gke-gcloud-auth-plugin"@), args: Seq::empty(), ..e })
    } else if preset == "aks"@ {
        match server_id {
            None => Err("aks preset requires --exec-server-id"@),
            Some(id) => Ok(
                ExecAuthView {
                    command: Some("kubelogin"@),
                    args: seq!["get-token"@, "--server-id"@, id],
                    ..e
                },
            ),
        }
    } else {
        Err("unknown exec preset: '"@ + preset + "'. Use: aws-eks, gke, aks"@)
    }
}

/// The view of an optional string slice.
pub open spec fn opt_view(o: Option<&str>) -> Option<Seq<char>> {
    match o {
        Some(s) => Some(s@),
        None => None,
    }
}

fn strings(v: &[&str]) -> (r: Vec<String>)
    ensures
        crate::text::views(r@) == v@.map_values(|s: &str| s@),
{
    let mut r: Vec<String> = Vec::new();
    let mut i: usize = 0;
    while i < v.len()
        invariant
            i <= v@.len(),
            r@.len() == i,
            forall|j: int| 0 <= j < i ==> (#[trigger] r@[j])@ == v@[j]@,
        decreases v.len() - i,
    {
        r.push(owned(v[i]));
        i = i + 1;
    }
    assert(crate::text::views(r@) =~= v@.map_values(|s: &str| s@));
    r
}

/// Sets up the exec configuration of a named preset (`aws-eks`, `gke`,
/// `aks`); on an error the configuration is left as it was.
pub fn apply_exec_preset(
    preset: &str,
    cluster: Option<&str>,
    server_id: Option<&str>,
    region: Option<&str>,
    exec: &mut ExecAuthConfig,
) -> (r: Result<(), K8pkError>)
    ensures
        match exec_preset(preset@, opt_view(cluster), opt_view(server_id), opt_view(region), old(exec)@) {
            Ok(e) => r is Ok && final(exec)@ == e,
            Err(m) => r matches Err(err) && err.is(ErrorKind::InvalidArgument, m) && final(exec)@ == old(exec)@,
        },
{
    if str_eq(preset, "aws-eks") {
        let c = match cluster {
            Some(c) => c,
            None => {
                return Err(K8pkError::InvalidArgument(owned("aws-eks preset requires --exec-cluster")));
            },
        };
        exec.command = Some(owned("aws"));
        let mut args = strings(&["eks", "get-token", "--cluster-name", c]);
        proof {
            let a = ["eks", "get-token", "--cluster-name", c];
            assert(a@.map_values(|s: &str| s@) =~= seq!["eks"@, "get-token"@, "--cluster-name"@, c@]);
        }
        if let Some(r) = region {
            args.push(owned("--region"));
            args.push(owned(r));
        }
        proof {
            assert(crate::text::views(args@) =~= seq!["eks"@, "get-token"@, "--cluster-name"@, c@] + match opt_view(region) {
                Some(r) => seq!["--region"@, r],
                None => Seq::<Seq<char>>::empty(),
            });
        }
        exec.args = args;
    } else if str_eq(preset, "gke") {
        exec.command = Some(owned("gke-gcloud-auth-plugin"));
        exec.args = Vec::new();
        assert(exec@.args =~= Seq::<Seq<char>>::empty());
    } else if str_eq(preset, "aks") {
        let id = match server_id {
            Some(s) => s,
            None => {
                return Err(K8pkError::InvalidArgument(owned("aks preset requires --exec-server-id")));
            },
        };
        exec.command = Some(owned("kubelogin"));
        let args = strings(&["get-token", "--server-id", id]);
        proof {
            let a = ["get-token", "--server-id", id];
            assert(a@.map_values(|s: &str| s@) =~= seq!["get-token"@, "--server-id"@, id@]);
        }
        exec.args = args;
    } else {
        return Err(K8pkError::InvalidArgument(
            concat(concat("unknown exec preset: '", preset).as_str(), "'. Use: aws-eks, gke, aks"),
        ));
    }
    Ok(())
}

/// The YAML entries for exec environment variables (`KEY=VALUE` each), or
/// the message for the first one without `=`.
pub open spec fn env_entries(env: Seq<Seq<char>>) -> Result<Seq<YamlView>, Seq<char>>
    decreases env.len(),
{
    if env.len() == 0 {
        Ok(Seq::empty())
    } else {
        match env_entries(env.drop_last()) {
            Err(m) => Err(m),
            Ok(items) => match split_once_char(env.last(), '=') {
                None => Err("invalid exec env '"@ + env.last() + "': expected KEY=VALUE format"@),
                Some((k, v)) => Ok(
                    items.push(
                        YamlView::Mapping(
                            seq![
                                (YamlView::Str("name"@), YamlView::Str(k)),
                                (YamlView::Str("value"@), YamlView::Str(v)),
                            ],
                        ),
                    ),
                ),
            },
        }
    }
}

proof fn lemma_env_entries_err(env: Seq<Seq<char>>, i: int, j: int)
    requires
        0 <= i < j <= env.len(),
        env_entries(env.take(i)) is Ok,
        split_once_char(env[i], '=') is None,
    ensures
        env_entries(env.take(j)) == Err::<Seq<YamlView>, Seq<char>>(
            "invalid exec env '"@ + env[i] + "': expected KEY=VALUE format"@,
        ),
    decreases j,
{
    assert(env.take(j).drop_last() =~= env.take(j - 1));
    if j > i + 1 {
        lemma_env_entries_err(env, i, j - 1);
    }
}

/// The kubeconfig `exec` stanza for an exec configuration, or the message of
/// the error.
pub open spec fn exec_stanza(e: ExecAuthView) -> Result<YamlView, Seq<char>> {
    match e.command {
        None => Err("exec auth requires --exec-command (use repeated --exec-arg and --exec-env KEY=VALUE)"@),
        Some(cmd) => match env_entries(e.env) {
            Err(m) => Err(m),
            Ok(envs) => Ok(
                YamlView::Mapping(
                    seq![
                        (
                            YamlView::Str("apiVersion"@),
                            YamlView::Str(
                                match e.api_version {
                                    Some(v) => v,
                                    None => "client.authentication.k8s.io/v1beta1"@,
                                },
                            ),
                        ),
                        (YamlView::Str("command"@), YamlView::Str(cmd)),
                    ] + (if e.args.len() > 0 {
                        seq![
                            (
                                YamlView::Str("args"@),
                                YamlView::Sequence(e.args.map_values(|a: Seq<char>| YamlView::Str(a))),
                            ),
                        ]
                    } else {
                        Seq::empty()
                    }) + (if e.env.len() > 0 {
                        seq![(YamlView::Str("env"@), YamlView::Sequence(envs))]
                    } else {
                        Seq::empty()
                    }),
                ),
            ),
        },
    }
}

/// Builds the kubeconfig `exec` stanza for exec-based authentication.
pub fn build_exec_auth(exec: &ExecAuthConfig) -> (r: Result<YamlValue, K8pkError>)
    ensures
        match exec_stanza(exec@) {
            Ok(y) => r matches Ok(v) && v@ == y,
            Err(m) => r matches Err(e) && e.is(ErrorKind::InvalidArgument, m),
        },
{
    let command = match &exec.command {
        Some(c) => c,
        None => {
            return Err(K8pkError::InvalidArgument(
                owned("exec auth requires --exec-command (use repeated --exec-arg and --exec-env KEY=VALUE)"),
            ));
        },
    };
    let api_version = match &exec.api_version {
        Some(v) => owned(v.as_str()),
        None => owned("client.authentication.k8s.io/v1beta1"),
    };
    let mut items: Vec<YamlValue> = Vec::new();
    let ghost ev = exec@.env;
    let mut i: usize = 0;
    assert(ev.take(0) =~= Seq::<Seq<char>>::empty());
    assert(items@.map_values(|v: YamlValue| v@) =~= Seq::<YamlView>::empty());
    while i < exec.env.len()
        invariant
            i <= exec.env@.len(),
            ev == exec@.env,
            exec@.command is Some,
            env_entries(ev.take(i as int)) == Ok::<Seq<YamlView>, Seq<char>>(items@.map_values(|v: YamlValue| v@)),
        decreases exec.env.len() - i,
    {
        assert(ev.take(i + 1).drop_last() =~= ev.take(i as int));
        assert(ev.take(i + 1).last() == exec.env@[i as int]@);
        let kv = chars_of(exec.env[i].as_str());
        match chars_split_once(&kv, '=') {
            None => {
                proof {
                    lemma_env_entries_err(ev, i as int, ev.len() as int);
                    assert(ev.take(ev.len() as int) =~= ev);
                }
                return Err(K8pkError::InvalidArgument(
                    concat(
                        concat("invalid exec env '", exec.env[i].as_str()).as_str(),
                        "': expected KEY=VALUE format",
                    ),
                ));
            },
            Some((k, v)) => {
                let mut es: Vec<YamlEntry> = Vec::new();
                es.push(str_entry("name", string_of(&k)));
                es.push(str_entry("value", string_of(&v)));
                proof {
                    lemma_mapping_view(es);
                    assert(entries_view(es@) =~= seq![
                        (YamlView::Str("name"@), YamlView::Str(k@)),
                        (YamlView::Str("value"@), YamlView::Str(v@)),
                    ]);
                }
                let ghost before = items@;
                items.push(YamlValue::Mapping(es));
                assert(items@.map_values(|x: YamlValue| x@) =~= before.map_values(|x: YamlValue| x@).push(
                    YamlView::Mapping(
                        seq![
                            (YamlView::Str("name"@), YamlView::Str(k@)),
                            (YamlView::Str("value"@), YamlView::Str(v@)),
                        ],
                    ),
                ));
            },
        }
        i = i + 1;
    }
    assert(ev.take(exec.env.len() as int) =~= ev);
    let mut map: Vec<YamlEntry> = Vec::new();
    map.push(str_entry("apiVersion", api_version));
    map.push(str_entry("command", owned(command.as_str())));
    if exec.args.len() > 0 {
        let mut args: Vec<YamlValue> = Vec::new();
        let mut j: usize = 0;
        while j < exec.args.len()
            invariant
                j <= exec.args@.len(),
                args@.len() == j,
                forall|x: int| 0 <= x < j ==> (#[trigger] args@[x])@ == YamlView::Str(exec.args@[x]@),
            decreases exec.args.len() - j,
        {
            args.push(YamlValue::Str(owned(exec.args[j].as_str())));
            j = j + 1;
        }
        proof {
            lemma_sequence_view(args);
            assert(args@.map_values(|v: YamlValue| v@) =~= exec@.args.map_values(|a: Seq<char>| YamlView::Str(a)));
        }
        map.push(YamlEntry { key: YamlValue::Str(owned("args")), value: YamlValue::Sequence(args) });
    }
    if exec.env.len() > 0 {
        proof {
            lemma_sequence_view(items);
        }
        map.push(YamlEntry { key: YamlValue::Str(owned("env")), value: YamlValue::Sequence(items) });
    }
    proof {
        lemma_mapping_view(map);
    }
    let r = YamlValue::Mapping(map);
    assert(exec_stanza(exec@) matches Ok(y) && r@ == y) by {
        if let Ok(YamlView::Mapping(m)) = exec_stanza(exec@) {
            assert(entries_view(map@) =~= m);
        }
    }
    Ok(r)
}


// ---------------------------------------------------------------------------
// Credentials from the `pass` password store
// ---------------------------------------------------------------------------

/// The values in the output of `pass show`: the first non-empty line is the
/// password (under `__password__`); later lines `key: value` give a value
/// under the trimmed, lower-cased key; later keys replace earlier ones.
pub open spec fn pass_values(ls: Seq<Seq<char>>) -> Map<Seq<char>, Seq<char>>
    decreases ls.len(),
{
    if ls.len() == 0 {
        Map::empty()
    } else {
        let m = pass_values(ls.drop_last());
        let t = trim(ls.last());
        if t.len() == 0 {
            m
        } else if ls.len() == 1 {
            m.insert("__password__"@, t)
        } else {
            match split_once_char(t, ':') {
                Some((k, v)) => m.insert(lowercase(trim(k)), trim(v)),
                None => m,
            }
        }
    }
}

/// Parses the output of `pass show` into its values.
pub fn parse_pass_store_output(stdout: &str) -> (r: StrMap<String>)
    ensures
        r.wf(),
        r@ == pass_values(lines(stdout@)),
{
    let chars = chars_of(stdout);
    let ls = chars_lines(&chars);
    let ghost lv = ls@.map_values(|v: Vec<char>| v@);
    let mut values: StrMap<String> = StrMap::new();
    let mut i: usize = 0;
    assert(lv.take(0) =~= Seq::<Seq<char>>::empty());
    while i < ls.len()
        invariant
            i <= ls@.len(),
            lv == ls@.map_values(|v: Vec<char>| v@),
            values.wf(),
            values@ == pass_values(lv.take(i as int)),
        decreases ls.len() - i,
    {
        assert(lv.take(i + 1).drop_last() =~= lv.take(i as int));
        assert(lv.take(i + 1).last() == ls@[i as int]@);
        let t = chars_trim(&ls[i]);
        if t.len() > 0 {
            if i == 0 {
                values.insert(owned("__password__"), string_of(&t));
            } else {
                match chars_split_once(&t, ':') {
                    Some((k, v)) => {
                        let kt = string_of(&chars_trim(&k));
                        let key = to_lowercase(kt.as_str());
                        values.insert(key, string_of(&chars_trim(&v)));
                    },
                    None => {},
                }
            }
        }
        i = i + 1;
    }
    assert(lv.take(ls.len() as int) =~= lv);
    values
}

/// The value under `k`, if any.
pub open spec fn value_of(m: Map<Seq<char>, Seq<char>>, k: Seq<char>) -> Option<Seq<char>> {
    if m.contains_key(k) {
        Some(m[k])
    } else {
        None
    }
}

/// The first of two options that is present.
pub open spec fn either(a: Option<Seq<char>>, b: Option<Seq<char>>) -> Option<Seq<char>> {
    if a is Some {
        a
    } else {
        b
    }
}

/// Token, username and password after filling in, by auth mode, those not
/// already given from the values of a `pass` entry.
pub open spec fn pass_filled(
    token: Option<Seq<char>>,
    username: Option<Seq<char>>,
    password: Option<Seq<char>>,
    m: Map<Seq<char>, Seq<char>>,
    mode: AuthMode,
) -> (Option<Seq<char>>, Option<Seq<char>>, Option<Seq<char>>) {
    let user_key = either(value_of(m, "username"@), value_of(m, "user"@));
    let pw = either(value_of(m, "password"@), value_of(m, "__password__"@));
    match mode {
        AuthMode::Token => (
            either(token, either(value_of(m, "token"@), value_of(m, "__password__"@))),
            username,
            password,
        ),
        AuthMode::UserPass => (token, either(username, user_key), either(password, pw)),
        AuthMode::Auto => {
            let u = either(username, user_key);
            let t = either(token, value_of(m, "token"@));
            if password is Some {
                (t, u, password)
            } else if user_key is Some || u is Some {
                (t, u, pw)
            } else if t is None {
                (value_of(m, "__password__"@), u, password)
            } else {
                (t, u, password)
            }
        },
        _ => (token, username, password),
    }
}

fn get_value(m: &StrMap<String>, k: &str) -> (r: Option<String>)
    requires
        m.wf(),
    ensures
        opt_str(r) == value_of(m@, k@),
{
    match m.get(k) {
        Some(v) => Some(owned(v.as_str())),
        None => None,
    }
}

fn first_of(a: Option<String>, b: Option<String>) -> (r: Option<String>)
    ensures
        opt_str(r) == either(opt_str(a), opt_str(b)),
{
    if a.is_some() {
        a
    } else {
        b
    }
}

/// Fills in the credentials not already given from the values of a `pass`
/// entry, as the auth mode asks.
pub fn apply_pass_values(
    token: &mut Option<String>,
    username: &mut Option<String>,
    password: &mut Option<String>,
    values: &StrMap<String>,
    auth_mode: AuthMode,
)
    requires
        values.wf(),
    ensures
        (opt_str(*final(token)), opt_str(*final(username)), opt_str(*final(password))) == pass_filled(
            opt_str(*old(token)),
            opt_str(*old(username)),
            opt_str(*old(password)),
            values@,
            auth_mode,
        ),
{
    let user_key = first_of(get_value(values, "username"), get_value(values, "user"));
    let pw = first_of(get_value(values, "password"), get_value(values, "__password__"));
    match auth_mode {
        AuthMode::Token => {
            if token.is_none() {
                *token = first_of(get_value(values, "token"), get_value(values, "__password__"));
            }
        },
        AuthMode::UserPass => {
            if username.is_none() {
                *username = user_key;
            }
            if password.is_none() {
                *password = pw;
            }
        },
        AuthMode::Auto => {
            let had_user_key = user_key.is_some();
            if username.is_none() {
                *username = user_key;
            }
            if token.is_none() {
                *token = get_value(values, "token");
            }
            if password.is_none() {
                if had_user_key || username.is_some() {
                    *password = pw;
                } else if token.is_none() {
                    *token = get_value(values, "__password__");
                }
            }
        },
        _ => {},
    }
}

/// The Rancher auth provider a `pass` entry names, trimmed, if it names a
/// non-empty one.
pub open spec fn pass_provider_of(m: Map<Seq<char>, Seq<char>>) -> Option<Seq<char>> {
    match either(value_of(m, "rancher_auth_provider"@), value_of(m, "rancher_provider"@)) {
        Some(v) => if trim(v).len() > 0 {
            Some(trim(v))
        } else {
            None
        },
        None => None,
    }
}

/// The Rancher auth provider named by a `pass` entry.
pub fn pass_provider(values: &StrMap<String>) -> (r: Option<String>)
    requires
        values.wf(),
    ensures
        opt_str(r) == pass_provider_of(values@),
{
    match first_of(get_value(values, "rancher_auth_provider"), get_value(values, "rancher_provider")) {
        Some(v) => {
            let vc = chars_of(v.as_str());
            let t = chars_trim(&vc);
            if t.len() > 0 {
                Some(string_of(&t))
            } else {
                None
            }
        },
        None => None,
    }
}


// ---------------------------------------------------------------------------
// Login requests and results
// ---------------------------------------------------------------------------

/// Result of a login operation.
#[derive(Debug, Clone)]
pub struct LoginResult {
    pub context_name: String,
    pub namespace: Option<String>,
    pub kubeconfig_path: Option<String>,
}

/// All parameters needed for a login operation.
#[derive(Debug, Clone)]
pub struct LoginRequest {
    pub login_type: Option<LoginType>,
    pub server: String,
    pub token: Option<String>,
    pub username: Option<String>,
    pub password: Option<String>,
    pub name: Option<String>,
    pub output_dir: Option<String>,
    pub insecure: bool,
    pub use_vault: bool,
    pub pass_entry: Option<String>,
    pub certificate_authority: Option<String>,
    pub client_certificate: Option<String>,
    pub client_key: Option<String>,
    pub auth: String,
    pub exec_auth: ExecAuthConfig,
    pub dry_run: bool,
    pub test: bool,
    pub test_timeout: u64,
    pub rancher_auth_provider: String,
    pub quiet: bool,
    pub rancher_cluster_server: Option<String>,
}

/// The content of a login request.
pub struct LoginRequestView {
    pub login_type: Option<LoginType>,
    pub server: Seq<char>,
    pub token: Option<Seq<char>>,
    pub username: Option<Seq<char>>,
    pub password: Option<Seq<char>>,
    pub name: Option<Seq<char>>,
    pub output_dir: Option<Seq<char>>,
    pub insecure: bool,
    pub use_vault: bool,
    pub pass_entry: Option<Seq<char>>,
    pub certificate_authority: Option<Seq<char>>,
    pub client_certificate: Option<Seq<char>>,
    pub client_key: Option<Seq<char>>,
    pub auth: Seq<char>,
    pub exec_auth: ExecAuthView,
    pub dry_run: bool,
    pub test: bool,
    pub test_timeout: u64,
    pub rancher_auth_provider: Seq<char>,
    pub quiet: bool,
    pub rancher_cluster_server: Option<Seq<char>>,
}

impl View for LoginRequest {
    type V = LoginRequestView;

    open spec fn view(&self) -> LoginRequestView {
        LoginRequestView {
            login_type: self.login_type,
            server: self.server@,
            token: opt_str(self.token),
            username: opt_str(self.username),
            password: opt_str(self.password),
            name: opt_str(self.name),
            output_dir: opt_str(self.output_dir),
            insecure: self.insecure,
            use_vault: self.use_vault,
            pass_entry: opt_str(self.pass_entry),
            certificate_authority: opt_str(self.certificate_authority),
            client_certificate: opt_str(self.client_certificate),
            client_key: opt_str(self.client_key),
            auth: self.auth@,
            exec_auth: self.exec_auth@,
            dry_run: self.dry_run,
            test: self.test,
            test_timeout: self.test_timeout,
            rancher_auth_provider: self.rancher_auth_provider@,
            quiet: self.quiet,
            rancher_cluster_server: opt_str(self.rancher_cluster_server),
        }
    }
}

/// A fresh request for `server`: auth mode `auto`, a 10 second test
/// timeout, the `local` Rancher provider, everything else unset.
pub open spec fn request_for(server: Seq<char>) -> LoginRequestView {
    LoginRequestView {
        login_type: None,
        server: server,
        token: None,
        username: None,
        password: None,
        name: None,
        output_dir: None,
        insecure: false,
        use_vault: false,
        pass_entry: None,
        certificate_authority: None,
        client_certificate: None,
        client_key: None,
        auth: "auto"@,
        exec_auth: ExecAuthView { command: None, args: Seq::empty(), env: Seq::empty(), api_version: None },
        dry_run: false,
        test: false,
        test_timeout: 10,
        rancher_auth_provider: "local"@,
        quiet: false,
        rancher_cluster_server: None,
    }
}

impl LoginRequest {
    /// A request for `server` with everything else at its default: auth
    /// mode `auto`, a 10 second test timeout and the `local` Rancher provider.
    pub fn new(server: &str) -> (r: LoginRequest)
        ensures
            r@ == request_for(server@),
    {
        LoginRequest {
            login_type: None,
            server: owned(server),
            token: None,
            username: None,
            password: None,
            name: None,
            output_dir: None,
            insecure: false,
            use_vault: false,
            pass_entry: None,
            certificate_authority: None,
            client_certificate: None,
            client_key: None,
            auth: owned("auto"),
            exec_auth: ExecAuthConfig::default(),
            dry_run: false,
            test: false,
            test_timeout: 10,
            rancher_auth_provider: owned("local"),
            quiet: false,
            rancher_cluster_server: None,
        }
    }

    /// The request with the login type set.
    pub fn with_type(self, login_type: LoginType) -> (r: LoginRequest)
        ensures
            r@ == (LoginRequestView { login_type: Some(login_type), ..self@ }),
    {
        let mut r = self;
        r.login_type = Some(login_type);
        r
    }

    /// The request with the context name set.
    pub fn with_name(self, name: &str) -> (r: LoginRequest)
        ensures
            r@ == (LoginRequestView { name: Some(name@), ..self@ }),
    {
        let mut r = self;
        r.name = Some(owned(name));
        r
    }

    /// The request with the token set.
    pub fn with_token(self, token: &str) -> (r: LoginRequest)
        ensures
            r@ == (LoginRequestView { token: Some(token@), ..self@ }),
    {
        let mut r = self;
        r.token = Some(owned(token));
        r
    }

    /// The request with username and password set.
    pub fn with_credentials(self, username: &str, password: &str) -> (r: LoginRequest)
        ensures
            r@ == (LoginRequestView { username: Some(username@), password: Some(password@), ..self@ }),
    {
        let mut r = self;
        r.username = Some(owned(username));
        r.password = Some(owned(password));
        r
    }

    /// The request with the auth mode set.
    pub fn with_auth(self, auth: &str) -> (r: LoginRequest)
        ensures
            r@ == (LoginRequestView { auth: auth@, ..self@ }),
    {
        let mut r = self;
        r.auth = owned(auth);
        r
    }

    /// The request with TLS verification switched off or on.
    pub fn with_insecure(self, insecure: bool) -> (r: LoginRequest)
        ensures
            r@ == (LoginRequestView { insecure, ..self@ }),
    {
        let mut r = self;
        r.insecure = insecure;
        r
    }

    /// The request with the Rancher cluster server set.
    pub fn with_rancher_cluster_server(self, url: &str) -> (r: LoginRequest)
        ensures
            r@ == (LoginRequestView { rancher_cluster_server: Some(url@), ..self@ }),
    {
        let mut r = self;
        r.rancher_cluster_server = Some(owned(url));
        r
    }

    /// The request with the Rancher auth provider set.
    pub fn with_rancher_auth_provider(self, provider: &str) -> (r: LoginRequest)
        ensures
            r@ == (LoginRequestView { rancher_auth_provider: provider@, ..self@ }),
    {
        let mut r = self;
        r.rancher_auth_provider = owned(provider);
        r
    }
}

/// The login type and auth mode a request asks for: the type must be given;
/// `auto` becomes `exec` when an exec command is given.
pub open spec fn request_modes(req: LoginRequestView) -> Result<(LoginType, AuthMode), Seq<char>> {
    match req.login_type {
        None => Err("login type is required"@),
        Some(t) => match auth_mode_named(lowercase(req.auth)) {
            None => Err("unknown auth mode: '"@ + req.auth + "'. Use: auto, token, userpass, client-cert, exec"@),
            Some(m) => Ok(
                (
                    t,
                    if m == AuthMode::Auto && req.exec_auth.command is Some {
                        AuthMode::Exec
                    } else {
                        m
                    },
                ),
            ),
        },
    }
}

/// Decides the login type and auth mode of a request.
pub fn login_modes(req: &LoginRequest) -> (r: Result<(LoginType, AuthMode), K8pkError>)
    ensures
        match request_modes(req@) {
            Ok(p) => r == Ok::<(LoginType, AuthMode), K8pkError>(p),
            Err(m) => r matches Err(e) && e.is(ErrorKind::InvalidArgument, m),
        },
{
    let login_type = match req.login_type {
        Some(t) => t,
        None => {
            return Err(K8pkError::InvalidArgument(owned("login type is required")));
        },
    };
    let mut mode = match parse_auth_mode(req.auth.as_str()) {
        Ok(m) => m,
        Err(e) => {
            return Err(e);
        },
    };
    if mode == AuthMode::Auto && req.exec_auth.command.is_some() {
        mode = AuthMode::Exec;
    }
    Ok((login_type, mode))
}

/// Whether a login asks for credentials interactively: none were given
/// (token, username, password, client certificate or exec command), a
/// terminal is there, the cluster is not GKE and the mode is one that
/// prompts (`auto`, `token`, `userpass`).
pub open spec fn prompts_for(
    has_creds: bool,
    is_tty: bool,
    login_type: LoginType,
    mode: AuthMode,
) -> bool {
    !has_creds && is_tty && login_type != LoginType::Gke && (mode == AuthMode::Auto || mode
        == AuthMode::Token || mode == AuthMode::UserPass)
}

/// Decides whether a login prompts for credentials.
pub fn needs_credential_prompt(
    req: &LoginRequest,
    token: &Option<String>,
    username: &Option<String>,
    password: &Option<String>,
    is_tty: bool,
    login_type: LoginType,
    mode: AuthMode,
) -> (r: bool)
    ensures
        r == prompts_for(
            token is Some || username is Some || password is Some || req.client_certificate is Some
                || req.exec_auth.command is Some,
            is_tty,
            login_type,
            mode,
        ),
{
    let has_creds = token.is_some() || username.is_some() || password.is_some()
        || req.client_certificate.is_some() || req.exec_auth.command.is_some();
    let prompting_mode = match mode {
        AuthMode::Auto | AuthMode::Token | AuthMode::UserPass => true,
        AuthMode::ClientCert | AuthMode::Exec => false,
    };
    !has_creds && is_tty && login_type != LoginType::Gke && prompting_mode
}

// ---------------------------------------------------------------------------
// Credential vault
// ---------------------------------------------------------------------------

/// Stored credentials.
#[derive(Debug)]
pub struct VaultEntry {
    pub username: String,
    pub password: String,
    pub rancher_auth_provider: Option<String>,
}

/// The content of stored credentials.
pub struct VaultEntryView {
    pub username: Seq<char>,
    pub password: Seq<char>,
    pub rancher_auth_provider: Option<Seq<char>>,
}

impl View for VaultEntry {
    type V = VaultEntryView;

    open spec fn view(&self) -> VaultEntryView {
        VaultEntryView {
            username: self.username@,
            password: self.password@,
            rancher_auth_provider: opt_str(self.rancher_auth_provider),
        }
    }
}

impl VaultEntry {
    /// A copy of the entry.
    pub fn copy(&self) -> (r: VaultEntry)
        ensures
            r@ == self@,
    {
        VaultEntry {
            username: owned(self.username.as_str()),
            password: owned(self.password.as_str()),
            rancher_auth_provider: crate::kubeconfig::copy_opt_str(&self.rancher_auth_provider),
        }
    }
}

/// Credentials by key (such as `rancher:{server}`), stored in one file.
pub struct Vault {
    path: String,
    entries: StrMap<VaultEntry>,
}

impl View for Vault {
    type V = Map<Seq<char>, VaultEntryView>;

    closed spec fn view(&self) -> Map<Seq<char>, VaultEntryView> {
        self.entries@
    }
}

impl Vault {
    /// The vault's entries are well formed.
    pub closed spec fn wf(&self) -> bool {
        self.entries.wf()
    }

    /// The file the vault lives in.
    pub closed spec fn file(&self) -> Seq<char> {
        self.path@
    }

    /// A vault stored at `path` holding `entries`.
    pub fn new(path: String, entries: StrMap<VaultEntry>) -> (r: Vault)
        requires
            entries.wf(),
        ensures
            r.wf(),
            r@ == entries@,
            r.file() == path@,
    {
        Vault { path, entries }
    }

    /// The credentials stored under `key`.
    pub fn get(&self, key: &str) -> (r: Option<VaultEntry>)
        requires
            self.wf(),
        ensures
            match r {
                Some(e) => self@.contains_key(key@) && e@ == self@[key@],
                None => !self@.contains_key(key@),
            },
    {
        match self.entries.get(key) {
            Some(e) => Some(e.copy()),
            None => None,
        }
    }

    /// Stores credentials under `key`, replacing any there.
    pub fn set(&mut self, key: String, entry: VaultEntry)
        requires
            old(self).wf(),
        ensures
            final(self).wf(),
            final(self)@ == old(self)@.insert(key@, entry@),
            final(self).file() == old(self).file(),
    {
        self.entries.insert(key, entry);
    }

    /// The keys that have credentials, each once.
    pub fn list_keys(&self) -> (r: Vec<&str>)
        requires
            self.wf(),
        ensures
            r@.map_values(|k: &str| k@).no_duplicates(),
            r@.map_values(|k: &str| k@).to_set() == self@.dom(),
    {
        proof {
            self.entries.lemma_key_order();
        }
        self.entries.key_strs()
    }

    /// Removes the credentials under `key`; whether there were any.
    pub fn delete(&mut self, key: &str) -> (r: bool)
        requires
            old(self).wf(),
        ensures
            final(self).wf(),
            r == old(self)@.contains_key(key@),
            final(self)@ == old(self)@.remove(key@),
            final(self).file() == old(self).file(),
    {
        self.entries.remove(key).is_some()
    }

    /// The vault file.
    pub fn path(&self) -> (r: &str)
        ensures
            r@ == self.file(),
    {
        self.path.as_str()
    }

    /// The stored entries, for saving.
    pub fn entries(&self) -> (r: &StrMap<VaultEntry>)
        requires
            self.wf(),
        ensures
            r.wf(),
            r@ == self@,
    {
        &self.entries
    }
}

} // verus!

//! The kubeconfigs that `login` writes, and the decisions around them:
//! context names, output paths, cluster and user stanzas, the `oc login`
//! command line and the adoption of the context that `oc` wrote.

use vstd::prelude::*;
use crate::context::{join_path_exec, path_join};
use crate::error::{ErrorKind, K8pkError};
use crate::kubeconfig::{
    context_namespace, context_refs, copy_item, extract_context_namespace, find_item, opt_str,
    find_named, items_view, names, sanitize_filename, sanitized, KubeConfig,
    KubeConfigView, NamedItem, NamedItemView,
};
use crate::login::{Vault, VaultEntry, VaultEntryView, exec_stanza, is_tls_error, opt_view, build_exec_auth, tls_patterns, AuthMode, ExecAuthConfig, ExecAuthView};
use crate::rancher::{rancher_server_base_url, server_base, ymap};
use crate::text::{
    chars_of, chars_trim_start_seq, concat, contains_seq, lowercase, owned, str_trim, string_of, trim,
    trim_start_seq, views,
};
use crate::kubeconfig_ops::retain_not_named;
use crate::kubeconfig_ops::drop_named;
use crate::yaml::{
    copy_value, entries_view, insert_entry, lemma_mapping_view, lookup, map_get, map_insert, YamlEntry,
    YamlValue, YamlView,
};

verus! {

// ---------------------------------------------------------------------------
// Names and paths
// ---------------------------------------------------------------------------

/// `s` with every `/` and `:` turned into `-`.
pub open spec fn dashed(s: Seq<char>) -> Seq<char> {
    s.map_values(|c: char| if c == '/' || c == ':' { '-' } else { c })
}

/// The context name a login gives a server when none is chosen:
/// `{prefix}-{server}`, the scheme dropped and `/`, `:` turned into `-`.
pub open spec fn default_login_name(prefix: Seq<char>, server: Seq<char>) -> Seq<char> {
    prefix + "-"@ + dashed(trim_start_seq(trim_start_seq(server, "https://"@), "http://"@))
}

/// The context name of a login: the chosen `name`, else one made from the
/// server URL and the login type's `prefix`.
pub fn login_context_name(prefix: &str, server: &str, name: Option<&str>) -> (r: String)
    ensures
        r@ == match name {
            Some(n) => n@,
            None => default_login_name(prefix@, server@),
        },
{
    match name {
        Some(n) => owned(n),
        None => {
            let s = chars_of(server);
            let https = chars_of("https://");
            let http = chars_of("http://");
            proof {
                reveal_strlit("https://");
                reveal_strlit("http://");
            }
            let a = chars_trim_start_seq(s.as_slice(), https.as_slice());
            let b = chars_trim_start_seq(a.as_slice(), http.as_slice());
            let mut out: Vec<char> = Vec::new();
            let mut i: usize = 0;
            while i < b.len()
                invariant
                    i <= b@.len(),
                    out@ == dashed(b@.take(i as int)),
                decreases b.len() - i,
            {
                let c = b[i];
                let m = if c == '/' || c == ':' {
                    '-'
                } else {
                    c
                };
                proof {
                    assert(b@.take(i + 1) =~= b@.take(i as int).push(c));
                    assert(dashed(b@.take(i as int).push(c)) =~= dashed(b@.take(i as int)).push(m));
                }
                out.push(m);
                i = i + 1;
            }
            assert(b@.take(b@.len() as int) =~= b@);
            let tail = string_of(&out);
            let head = concat(prefix, "-");
            concat(head.as_str(), tail.as_str())
        },
    }
}

/// Where a login writes its kubeconfig: `{out_dir}/{context}.yaml`, the
/// context name made safe for a file name.
pub fn login_kubeconfig_path(out_dir: &str, context_name: &str) -> (r: String)
    ensures
        r@ == path_join(out_dir@, sanitized(context_name@) + ".yaml"@),
{
    let safe = sanitize_filename(context_name);
    let file = concat(safe.as_str(), ".yaml");
    join_path_exec(out_dir, file.as_str())
}

// ---------------------------------------------------------------------------
// Stanzas
// ---------------------------------------------------------------------------

/// The content of a mapping with string keys.
pub open spec fn str_keyed(entries: Seq<(Seq<char>, YamlView)>) -> Seq<(YamlView, YamlView)> {
    entries.map_values(|e: (Seq<char>, YamlView)| (YamlView::Str(e.0), e.1))
}

/// A mapping value built from string-keyed entries, in their order.
fn mapping_of(es: Vec<YamlEntry>, Ghost(spec): Ghost<Seq<(Seq<char>, YamlView)>>) -> (r: YamlValue)
    requires
        entries_view(es@) == str_keyed(spec),
    ensures
        r@ == ymap(spec),
{
    proof {
        lemma_mapping_view(es);
    }
    YamlValue::Mapping(es)
}

/// The entry `k: v`.
fn entry(k: &str, v: YamlValue) -> (r: YamlEntry)
    ensures
        r.key@ == YamlView::Str(k@),
        r.value@ == v@,
{
    YamlEntry { key: YamlValue::Str(owned(k)), value: v }
}

proof fn lemma_push_entry(es: Seq<YamlEntry>, spec: Seq<(Seq<char>, YamlView)>, e: YamlEntry, k: Seq<char>, v: YamlView)
    requires
        entries_view(es) == str_keyed(spec),
        e.key@ == YamlView::Str(k),
        e.value@ == v,
    ensures
        entries_view(es.push(e)) == str_keyed(spec.push((k, v))),
{
    let a = entries_view(es.push(e));
    let b = str_keyed(spec.push((k, v)));
    assert(entries_view(es).len() == es.len());
    assert(str_keyed(spec).len() == spec.len());
    assert forall|i: int| 0 <= i < a.len() implies a[i] == b[i] by {
        if i < es.len() {
            assert(es.push(e)[i] == es[i]);
            assert(spec.push((k, v))[i] == spec[i]);
            assert(entries_view(es)[i] == str_keyed(spec)[i]);
        }
    }
    assert(a =~= b);
}

/// The cluster stanza of a login: the server, then the CA file when one is
/// given, else TLS checks off when `insecure`.
pub open spec fn cluster_rest(server: Seq<char>, ca: Option<Seq<char>>, insecure: bool) -> YamlView {
    ymap(
        seq![
            (
                "cluster"@,
                ymap(
                    seq![("server"@, YamlView::Str(server))] + match ca {
                        Some(c) => seq![("certificate-authority"@, YamlView::Str(c))],
                        None => if insecure {
                            seq![("insecure-skip-tls-verify"@, YamlView::Bool(true))]
                        } else {
                            Seq::empty()
                        },
                    },
                ),
            ),
        ],
    )
}

/// Builds the cluster stanza of a login.
pub fn cluster_stanza(server: &str, certificate_authority: Option<&str>, insecure: bool) -> (r: YamlValue)
    ensures
        r@ == cluster_rest(server@, opt_view(certificate_authority), insecure),
{
    let mut es: Vec<YamlEntry> = Vec::new();
    let ghost mut spec: Seq<(Seq<char>, YamlView)> = Seq::empty();
    assert(entries_view(es@) =~= str_keyed(spec));
    let e = entry("server", YamlValue::Str(owned(server)));
    proof {
        lemma_push_entry(es@, spec, e, "server"@, YamlView::Str(server@));
        spec = spec.push(("server"@, YamlView::Str(server@)));
    }
    es.push(e);
    match certificate_authority {
        Some(ca) => {
            let e = entry("certificate-authority", YamlValue::Str(owned(ca)));
            proof {
                lemma_push_entry(es@, spec, e, "certificate-authority"@, YamlView::Str(ca@));
                spec = spec.push(("certificate-authority"@, YamlView::Str(ca@)));
            }
            es.push(e);
        },
        None => {
            if insecure {
                let e = entry("insecure-skip-tls-verify", YamlValue::Bool(true));
                proof {
                    lemma_push_entry(es@, spec, e, "insecure-skip-tls-verify"@, YamlView::Bool(true));
                    spec = spec.push(("insecure-skip-tls-verify"@, YamlView::Bool(true)));
                }
                es.push(e);
            }
        },
    }
    proof {
        let tail: Seq<(Seq<char>, YamlView)> = match opt_view(certificate_authority) {
            Some(c) => seq![("certificate-authority"@, YamlView::Str(c))],
            None => if insecure {
                seq![("insecure-skip-tls-verify"@, YamlView::Bool(true))]
            } else {
                Seq::empty()
            },
        };
        assert(spec =~= seq![("server"@, YamlView::Str(server@))] + tail);
    }
    let inner = mapping_of(es, Ghost(spec));
    single("cluster", inner)
}

/// A mapping with the one entry `k: v`.
fn single(k: &str, v: YamlValue) -> (r: YamlValue)
    ensures
        r@ == ymap(seq![(k@, v@)]),
{
    let mut es: Vec<YamlEntry> = Vec::new();
    let e = entry(k, v);
    let ghost spec: Seq<(Seq<char>, YamlView)> = seq![(k@, e.value@)];
    proof {
        assert(entries_view(es@) =~= str_keyed(Seq::empty()));
        lemma_push_entry(es@, Seq::empty(), e, k@, e.value@);
        assert(Seq::<(Seq<char>, YamlView)>::empty().push((k@, e.value@)) =~= spec);
    }
    es.push(e);
    mapping_of(es, Ghost(spec))
}

/// The kubeconfig a login writes: one cluster `{ctx}-cluster`, one user
/// `{ctx}-user`, one context `ctx` tying them, `ctx` as current context,
/// and the default header fields.
pub open spec fn login_kubeconfig(ctx: Seq<char>, cluster: YamlView, user: YamlView) -> KubeConfigView {
    KubeConfigView {
        api_version: Some("v1"@),
        kind: Some("Config"@),
        preferences: Some(YamlView::Mapping(Seq::empty())),
        clusters: seq![NamedItemView { name: ctx + "-cluster"@, rest: cluster }],
        current_context: Some(ctx),
        contexts: seq![
            NamedItemView {
                name: ctx,
                rest: ymap(
                    seq![
                        (
                            "context"@,
                            ymap(
                                seq![
                                    ("cluster"@, YamlView::Str(ctx + "-cluster"@)),
                                    ("user"@, YamlView::Str(ctx + "-user"@)),
                                ],
                            ),
                        ),
                    ],
                ),
            },
        ],
        users: seq![NamedItemView { name: ctx + "-user"@, rest: user }],
        extensions: None,
    }
}

/// Puts a login's kubeconfig together from its cluster and user stanzas.
pub fn assemble_login_kubeconfig(context_name: &str, cluster: YamlValue, user: YamlValue) -> (r: KubeConfig)
    ensures
        r@ == login_kubeconfig(context_name@, cluster@, user@),
{
    let ghost cv = cluster@;
    let ghost uv = user@;
    let cluster_name = concat(context_name, "-cluster");
    let user_name = concat(context_name, "-user");
    let mut es: Vec<YamlEntry> = Vec::new();
    let ghost spec0: Seq<(Seq<char>, YamlView)> = Seq::empty();
    assert(entries_view(es@) =~= str_keyed(spec0));
    let e1 = entry("cluster", YamlValue::Str(owned(cluster_name.as_str())));
    proof {
        lemma_push_entry(es@, spec0, e1, "cluster"@, YamlView::Str(cluster_name@));
    }
    es.push(e1);
    let ghost spec1 = spec0.push(("cluster"@, YamlView::Str(cluster_name@)));
    let e2 = entry("user", YamlValue::Str(owned(user_name.as_str())));
    proof {
        lemma_push_entry(es@, spec1, e2, "user"@, YamlView::Str(user_name@));
    }
    es.push(e2);
    let ghost spec2 = spec1.push(("user"@, YamlView::Str(user_name@)));
    proof {
        assert(spec2 =~= seq![
            ("cluster"@, YamlView::Str(context_name@ + "-cluster"@)),
            ("user"@, YamlView::Str(context_name@ + "-user"@)),
        ]);
    }
    let ctx_map = mapping_of(es, Ghost(spec2));
    let ctx_rest = single("context", ctx_map);
    let mut cfg = KubeConfig::default();
    cfg.clusters.push(NamedItem { name: cluster_name, rest: cluster });
    cfg.users.push(NamedItem { name: user_name, rest: user });
    cfg.contexts.push(NamedItem { name: owned(context_name), rest: ctx_rest });
    cfg.current_context = Some(owned(context_name));
    cfg.ensure_defaults(None);
    assert(cfg@.clusters =~= login_kubeconfig(context_name@, cv, uv).clusters);
    assert(cfg@.users =~= login_kubeconfig(context_name@, cv, uv).users);
    assert(cfg@.contexts =~= login_kubeconfig(context_name@, cv, uv).contexts);
    cfg
}

/// A user stanza from its entries; with none, an empty mapping.
pub open spec fn user_rest_of(entries: Seq<(Seq<char>, YamlView)>) -> YamlView {
    if entries.len() == 0 {
        ymap(Seq::empty())
    } else {
        ymap(seq![("user"@, ymap(entries))])
    }
}

/// Whether a plain Kubernetes login asks for a username and password: in
/// user/password mode, or in automatic mode when no token, client
/// certificate or key, and no exec command is given.
pub open spec fn k8s_wants_userpass(mode: AuthMode, token: bool, cert: bool, key: bool, exec_command: bool) -> bool {
    mode == AuthMode::UserPass || (mode == AuthMode::Auto && !token && !cert && !key && !exec_command)
}

/// Whether a plain Kubernetes login asks for a username and password.
pub fn k8s_needs_userpass(
    auth_mode: AuthMode,
    token: Option<&str>,
    client_certificate: Option<&str>,
    client_key: Option<&str>,
    exec: &ExecAuthConfig,
) -> (r: bool)
    ensures
        r == k8s_wants_userpass(auth_mode, token is Some, client_certificate is Some, client_key is Some, exec@.command is Some),
{
    auth_mode == AuthMode::UserPass || (auth_mode == AuthMode::Auto && token.is_none()
        && client_certificate.is_none() && client_key.is_none() && exec.command.is_none())
}

/// The entries of a plain Kubernetes login's user stanza, in order: the
/// token, the username and password, the client certificate and key (when
/// both are given), and the exec stanza.
pub open spec fn k8s_user_entries(
    token: Option<Seq<char>>,
    userpass: Option<(Seq<char>, Seq<char>)>,
    cert_key: Option<(Seq<char>, Seq<char>)>,
    exec: Option<YamlView>,
) -> Seq<(Seq<char>, YamlView)> {
    (match token {
        Some(t) => seq![("token"@, YamlView::Str(t))],
        None => Seq::empty(),
    }) + (match userpass {
        Some((u, p)) => seq![("username"@, YamlView::Str(u)), ("password"@, YamlView::Str(p))],
        None => Seq::empty(),
    }) + (match cert_key {
        Some((c, k)) => seq![("client-certificate"@, YamlView::Str(c)), ("client-key"@, YamlView::Str(k))],
        None => Seq::empty(),
    }) + (match exec {
        Some(e) => seq![("exec"@, e)],
        None => Seq::empty(),
    })
}

/// The user stanza of a plain Kubernetes login, or the reason the exec
/// configuration cannot be written.
pub open spec fn k8s_user_rest(
    token: Option<Seq<char>>,
    username: Option<Seq<char>>,
    password: Option<Seq<char>>,
    cert: Option<Seq<char>>,
    key: Option<Seq<char>>,
    mode: AuthMode,
    exec: ExecAuthView,
) -> Result<YamlView, Seq<char>> {
    let userpass = if k8s_wants_userpass(mode, token is Some, cert is Some, key is Some, exec.command is Some) {
        Some((username.unwrap(), password.unwrap()))
    } else {
        None
    };
    let cert_key = match (cert, key) {
        (Some(c), Some(k)) => Some((c, k)),
        _ => None,
    };
    if mode == AuthMode::Exec {
        match exec_stanza(exec) {
            Ok(e) => Ok(user_rest_of(k8s_user_entries(token, userpass, cert_key, Some(e)))),
            Err(m) => Err(m),
        }
    } else {
        Ok(user_rest_of(k8s_user_entries(token, userpass, cert_key, None)))
    }
}

/// The kubeconfig of a plain Kubernetes (EKS, AKS, generic) login. When the
/// login asks for a username and password, they have been obtained.
pub fn k8s_login_kubeconfig(
    context_name: &str,
    server: &str,
    token: Option<&str>,
    username: Option<&str>,
    password: Option<&str>,
    insecure: bool,
    certificate_authority: Option<&str>,
    client_certificate: Option<&str>,
    client_key: Option<&str>,
    auth_mode: AuthMode,
    exec: &ExecAuthConfig,
) -> (r: Result<KubeConfig, K8pkError>)
    requires
        k8s_wants_userpass(auth_mode, token is Some, client_certificate is Some, client_key is Some, exec@.command is Some)
            ==> username is Some && password is Some,
    ensures
        match k8s_user_rest(
            opt_view(token),
            opt_view(username),
            opt_view(password),
            opt_view(client_certificate),
            opt_view(client_key),
            auth_mode,
            exec@,
        ) {
            Ok(u) => r matches Ok(c) && c@ == login_kubeconfig(
                context_name@,
                cluster_rest(server@, opt_view(certificate_authority), insecure),
                u,
            ),
            Err(m) => r matches Err(e) && e.is(ErrorKind::InvalidArgument, m),
        },
{
    let ghost tv = opt_view(token);
    let ghost wants = k8s_wants_userpass(auth_mode, token is Some, client_certificate is Some, client_key is Some, exec@.command is Some);
    let mut es: Vec<YamlEntry> = Vec::new();
    let ghost mut spec: Seq<(Seq<char>, YamlView)> = Seq::empty();
    assert(entries_view(es@) =~= str_keyed(spec));
    match token {
        Some(t) => {
            let e = entry("token", YamlValue::Str(owned(t)));
            proof {
                lemma_push_entry(es@, spec, e, "token"@, YamlView::Str(t@));
                spec = spec.push(("token"@, YamlView::Str(t@)));
            }
            es.push(e);
        },
        None => {},
    }
    let ghost after_token = spec;
    if k8s_needs_userpass(auth_mode, token, client_certificate, client_key, exec) {
        let u = username.unwrap();
        let p = password.unwrap();
        let e = entry("username", YamlValue::Str(owned(u)));
        proof {
            lemma_push_entry(es@, spec, e, "username"@, YamlView::Str(u@));
            spec = spec.push(("username"@, YamlView::Str(u@)));
        }
        es.push(e);
        let e = entry("password", YamlValue::Str(owned(p)));
        proof {
            lemma_push_entry(es@, spec, e, "password"@, YamlView::Str(p@));
            spec = spec.push(("password"@, YamlView::Str(p@)));
        }
        es.push(e);
    }
    let ghost after_userpass = spec;
    match (client_certificate, client_key) {
        (Some(c), Some(k)) => {
            let e = entry("client-certificate", YamlValue::Str(owned(c)));
            proof {
                lemma_push_entry(es@, spec, e, "client-certificate"@, YamlView::Str(c@));
                spec = spec.push(("client-certificate"@, YamlView::Str(c@)));
            }
            es.push(e);
            let e = entry("client-key", YamlValue::Str(owned(k)));
            proof {
                lemma_push_entry(es@, spec, e, "client-key"@, YamlView::Str(k@));
                spec = spec.push(("client-key"@, YamlView::Str(k@)));
            }
            es.push(e);
        },
        _ => {},
    }
    let ghost after_cert = spec;
    let ghost mut ex: Option<YamlView> = None;
    if auth_mode == AuthMode::Exec {
        match build_exec_auth(exec) {
            Ok(v) => {
                let e = entry("exec", v);
                proof {
                    lemma_push_entry(es@, spec, e, "exec"@, e.value@);
                    ex = Some(e.value@);
                    spec = spec.push(("exec"@, e.value@));
                }
                es.push(e);
            },
            Err(err) => {
                return Err(err);
            },
        }
    }
    let ghost userpass = if wants {
        Some((opt_view(username).unwrap(), opt_view(password).unwrap()))
    } else {
        None
    };
    let ghost cert_key = match (opt_view(client_certificate), opt_view(client_key)) {
        (Some(c), Some(k)) => Some((c, k)),
        _ => None,
    };
    proof {
        assert(spec =~= k8s_user_entries(tv, userpass, cert_key, ex));
    }
    let n = es.len();
    let user_rest = if n == 0 {
        let empty: Vec<YamlEntry> = Vec::new();
        proof {
            assert(spec =~= Seq::<(Seq<char>, YamlView)>::empty());
            assert(entries_view(empty@) =~= str_keyed(Seq::empty()));
        }
        mapping_of(empty, Ghost(Seq::empty()))
    } else {
        proof {
            assert(spec.len() == n);
        }
        let inner = mapping_of(es, Ghost(spec));
        single("user", inner)
    };
    let cluster = cluster_stanza(server, certificate_authority, insecure);
    Ok(assemble_login_kubeconfig(context_name, cluster, user_rest))
}

/// The user stanza of a GKE login: the `gke-gcloud-auth-plugin` exec plugin.
pub open spec fn gke_user_rest() -> YamlView {
    ymap(
        seq![
            (
                "user"@,
                ymap(
                    seq![
                        (
                            "exec"@,
                            ymap(
                                seq![
                                    ("apiVersion"@, YamlView::Str("client.authentication.k8s.io/v1beta1"@)),
                                    ("command"@, YamlView::Str("gke-gcloud-auth-plugin"@)),
                                ],
                            ),
                        ),
                    ],
                ),
            ),
        ],
    )
}

/// The kubeconfig of a GKE login.
pub fn gke_login_kubeconfig(context_name: &str, server: &str, insecure: bool, certificate_authority: Option<&str>) -> (r: KubeConfig)
    ensures
        r@ == login_kubeconfig(context_name@, cluster_rest(server@, opt_view(certificate_authority), insecure), gke_user_rest()),
{
    let mut es: Vec<YamlEntry> = Vec::new();
    let ghost spec0: Seq<(Seq<char>, YamlView)> = Seq::empty();
    assert(entries_view(es@) =~= str_keyed(spec0));
    let e1 = entry("apiVersion", YamlValue::Str(owned("client.authentication.k8s.io/v1beta1")));
    proof {
        lemma_push_entry(es@, spec0, e1, "apiVersion"@, e1.value@);
    }
    let ghost spec1 = spec0.push(("apiVersion"@, e1.value@));
    es.push(e1);
    let e2 = entry("command", YamlValue::Str(owned("gke-gcloud-auth-plugin")));
    proof {
        lemma_push_entry(es@, spec1, e2, "command"@, e2.value@);
    }
    let ghost spec2 = spec1.push(("command"@, e2.value@));
    es.push(e2);
    proof {
        assert(spec2 =~= seq![
            ("apiVersion"@, YamlView::Str("client.authentication.k8s.io/v1beta1"@)),
            ("command"@, YamlView::Str("gke-gcloud-auth-plugin"@)),
        ]);
    }
    let exec_map = mapping_of(es, Ghost(spec2));
    let user_map = single("exec", exec_map);
    let user_rest = single("user", user_map);
    let cluster = cluster_stanza(server, certificate_authority, insecure);
    assemble_login_kubeconfig(context_name, cluster, user_rest)
}

/// The user stanza that carries a bearer token.
pub open spec fn token_user_rest(token: Seq<char>) -> YamlView {
    ymap(seq![("user"@, ymap(seq![("token"@, YamlView::Str(token))]))])
}

/// The kubeconfig of a Rancher login: the cluster URL (the Rancher proxy
/// URL where one was found) and the bearer token Rancher issued.
pub fn rancher_login_kubeconfig(
    context_name: &str,
    cluster_server: &str,
    token: &str,
    insecure: bool,
    certificate_authority: Option<&str>,
) -> (r: KubeConfig)
    ensures
        r@ == login_kubeconfig(
            context_name@,
            cluster_rest(cluster_server@, opt_view(certificate_authority), insecure),
            token_user_rest(token@),
        ),
{
    let token_map = single("token", YamlValue::Str(owned(token)));
    let user_rest = single("user", token_map);
    let cluster = cluster_stanza(cluster_server, certificate_authority, insecure);
    assemble_login_kubeconfig(context_name, cluster, user_rest)
}

// ---------------------------------------------------------------------------
// OpenShift
// ---------------------------------------------------------------------------

/// Refuses the options an OpenShift login does not support: exec and
/// client-certificate authentication, and dry runs.
pub fn ocp_login_check(auth_mode: AuthMode, dry_run: bool) -> (r: Result<(), K8pkError>)
    ensures
        (auth_mode == AuthMode::Exec || auth_mode == AuthMode::ClientCert) ==> (r matches Err(e) && e.is(
            ErrorKind::InvalidArgument,
            "exec or client-cert auth is not supported for --type ocp"@,
        )),
        !(auth_mode == AuthMode::Exec || auth_mode == AuthMode::ClientCert) && dry_run ==> (r matches Err(e)
            && e.is(ErrorKind::InvalidArgument, "--dry-run is not supported for --type ocp"@)),
        !(auth_mode == AuthMode::Exec || auth_mode == AuthMode::ClientCert) && !dry_run ==> r is Ok,
{
    if auth_mode == AuthMode::Exec || auth_mode == AuthMode::ClientCert {
        return Err(K8pkError::InvalidArgument(owned("exec or client-cert auth is not supported for --type ocp")));
    }
    if dry_run {
        return Err(K8pkError::InvalidArgument(owned("--dry-run is not supported for --type ocp")));
    }
    Ok(())
}

/// Where a login's credentials come from: the token given, the username
/// and password given (asking for the missing one), or the vault (asking
/// when it has none).
#[derive(Debug, Clone, Copy, PartialEq, Eq, Structural)]
pub enum CredentialSource {
    Token,
    Given,
    Stored,
}

/// Where a login's credentials come from, given which were passed.
pub fn credential_source(token: bool, username: bool, password: bool) -> (r: CredentialSource)
    ensures
        r == (if token {
            CredentialSource::Token
        } else if username || password {
            CredentialSource::Given
        } else {
            CredentialSource::Stored
        }),
{
    if token {
        CredentialSource::Token
    } else if username || password {
        CredentialSource::Given
    } else {
        CredentialSource::Stored
    }
}

/// The vault key under which an OpenShift login keeps its credentials.
pub fn ocp_vault_key(server: &str) -> (r: String)
    ensures
        r@ == "ocp:"@ + server@,
{
    concat("ocp:", server)
}

/// A flag and its value, when there is a value.
pub open spec fn opt_flag(flag: Seq<char>, v: Option<Seq<char>>) -> Seq<Seq<char>> {
    match v {
        Some(x) => seq![flag, x],
        None => Seq::empty(),
    }
}

/// The arguments of `oc login`.
pub open spec fn ocp_args(
    server: Seq<char>,
    token: Option<Seq<char>>,
    username: Option<Seq<char>>,
    password: Option<Seq<char>>,
    ca: Option<Seq<char>>,
    insecure: bool,
) -> Seq<Seq<char>> {
    seq!["login"@, server] + opt_flag("--token"@, token) + opt_flag("--username"@, username) + opt_flag(
        "--password"@,
        password,
    ) + opt_flag("--certificate-authority"@, ca) + if insecure {
        seq!["--insecure-skip-tls-verify"@]
    } else {
        Seq::empty()
    }
}

fn push_flag(args: &mut Vec<String>, flag: &str, v: Option<&str>)
    ensures
        views(final(args)@) == views(old(args)@) + opt_flag(flag@, opt_view(v)),
{
    let ghost before = views(args@);
    match v {
        Some(x) => {
            args.push(owned(flag));
            args.push(owned(x));
            assert(views(args@) =~= before + seq![flag@, x@]);
        },
        None => {
            assert(views(args@) =~= before + Seq::<Seq<char>>::empty());
        },
    }
}

/// The arguments of `oc login` for a server and the credentials found.
pub fn ocp_login_args(
    server: &str,
    token: Option<&str>,
    username: Option<&str>,
    password: Option<&str>,
    certificate_authority: Option<&str>,
    insecure: bool,
) -> (r: Vec<String>)
    ensures
        views(r@) == ocp_args(
            server@,
            opt_view(token),
            opt_view(username),
            opt_view(password),
            opt_view(certificate_authority),
            insecure,
        ),
{
    let mut args: Vec<String> = Vec::new();
    args.push(owned("login"));
    args.push(owned(server));
    assert(views(args@) =~= seq!["login"@, server@]);
    push_flag(&mut args, "--token", token);
    push_flag(&mut args, "--username", username);
    push_flag(&mut args, "--password", password);
    push_flag(&mut args, "--certificate-authority", certificate_authority);
    let ghost before = views(args@);
    if insecure {
        args.push(owned("--insecure-skip-tls-verify"));
        assert(views(args@) =~= before + seq!["--insecure-skip-tls-verify"@]);
    } else {
        assert(views(args@) =~= before + Seq::<Seq<char>>::empty());
    }
    args
}

/// The error for a failed `oc login`, given what it printed: a TLS error
/// with a hint to retry without TLS checks, or a plain failure naming the
/// `oc` binary that ran.
pub fn ocp_login_failure(output: &str, context_name: &str, server: &str, oc_path: &str) -> (r: K8pkError)
    ensures
        (exists|i: int| 0 <= i < tls_patterns().len() && contains_seq(lowercase(output@), #[trigger] tls_patterns()[i]))
            ==> (r matches K8pkError::TlsCertificateError { context, hint } && context@ == context_name@
                && hint@ == "Re-login with: k8pk login --insecure-skip-tls-verify --server "@ + server@ + " --name "@
                + context_name@),
        !(exists|i: int| 0 <= i < tls_patterns().len() && contains_seq(lowercase(output@), #[trigger] tls_patterns()[i]))
            ==> (r matches K8pkError::CommandFailed(m) && m@ == "oc login failed (binary: "@ + oc_path@
                + "). If `oc` is not on PATH, use: export K8PK_OC=/path/to/oc  or  k8pk --oc /path/to/oc login ..."@),
{
    if is_tls_error(output) {
        let a = concat("Re-login with: k8pk login --insecure-skip-tls-verify --server ", server);
        let b = concat(a.as_str(), " --name ");
        let hint = concat(b.as_str(), context_name);
        K8pkError::TlsCertificateError { context: owned(context_name), hint }
    } else {
        let a = concat("oc login failed (binary: ", oc_path);
        K8pkError::CommandFailed(
            concat(
                a.as_str(),
                "). If `oc` is not on PATH, use: export K8PK_OC=/path/to/oc  or  k8pk --oc /path/to/oc login ...",
            ),
        )
    }
}

/// The items with each name kept once: its first occurrence.
pub open spec fn unique_by_name(v: Seq<NamedItemView>) -> Seq<NamedItemView>
    decreases v.len(),
{
    if v.len() == 0 {
        Seq::empty()
    } else {
        let prev = unique_by_name(v.drop_last());
        if find_named(prev, v.last().name) is Some {
            prev
        } else {
            prev.push(v.last())
        }
    }
}

/// The contexts of the kubeconfig `oc login` wrote, once the login's own
/// context has taken over: duplicates dropped (the first of each name
/// stays), any context already called `name` dropped, the last one left
/// renamed to `name`.
pub open spec fn adopted_contexts(ctxs: Seq<NamedItemView>, name: Seq<char>) -> Seq<NamedItemView> {
    let kept = drop_named(unique_by_name(ctxs), name);
    if kept.len() == 0 {
        kept
    } else {
        kept.drop_last().push(NamedItemView { name, rest: kept.last().rest })
    }
}

/// The namespace of the context that the login's context took over.
pub open spec fn adopted_namespace(ctxs: Seq<NamedItemView>, name: Seq<char>) -> Option<Seq<char>> {
    let kept = drop_named(unique_by_name(ctxs), name);
    if kept.len() == 0 {
        None
    } else {
        context_namespace(kept.last().rest)
    }
}

/// Makes the context that `oc login` wrote the login's own: the contexts
/// become `adopted_contexts`, `name` the current context. Returns the
/// namespace the context had.
pub fn ocp_adopt_context(cfg: &mut KubeConfig, context_name: &str) -> (r: Option<String>)
    ensures
        final(cfg)@ == (KubeConfigView {
            contexts: adopted_contexts(old(cfg)@.contexts, context_name@),
            current_context: Some(context_name@),
            ..old(cfg)@
        }),
        opt_str(r) == adopted_namespace(old(cfg)@.contexts, context_name@),
{
    let ghost ctxs = old(cfg)@.contexts;
    let mut unique: Vec<NamedItem> = Vec::new();
    let mut i: usize = 0;
    while i < cfg.contexts.len()
        invariant
            i <= cfg.contexts@.len(),
            ctxs == items_view(cfg.contexts@),
            items_view(unique@) == unique_by_name(ctxs.take(i as int)),
        decreases cfg.contexts.len() - i,
    {
        proof {
            assert(ctxs.take(i + 1).drop_last() =~= ctxs.take(i as int));
            assert(ctxs.take(i + 1).last() == ctxs[i as int]);
            assert(cfg.contexts@[i as int]@ == ctxs[i as int]);
        }
        if find_item(&unique, cfg.contexts[i].name.as_str()).is_none() {
            let item = copy_item(&cfg.contexts[i]);
            let ghost before = unique@;
            unique.push(item);
            proof {
                assert(items_view(unique@) =~= items_view(before).push(item@));
            }
        }
        i = i + 1;
    }
    proof {
        assert(ctxs.take(ctxs.len() as int) =~= ctxs);
    }
    retain_not_named(&mut unique, context_name);
    let ghost kept = items_view(unique@);
    let ns = match unique.pop() {
        Some(last) => {
            let ns = extract_context_namespace(&last.rest);
            let ghost before = unique@;
            unique.push(NamedItem { name: owned(context_name), rest: last.rest });
            proof {
                assert(kept.drop_last() =~= items_view(before));
                assert(items_view(unique@) =~= kept.drop_last().push(
                    NamedItemView { name: context_name@, rest: kept.last().rest },
                ));
            }
            ns
        },
        None => None,
    };
    cfg.contexts = unique;
    cfg.current_context = Some(owned(context_name));
    ns
}

// ---------------------------------------------------------------------------
// Token refresh
// ---------------------------------------------------------------------------

/// The context whose user gets a refreshed token: the one called `name`,
/// else the current context, else (with no current context) the first.
pub open spec fn token_target(c: KubeConfigView, name: Seq<char>) -> Option<NamedItemView> {
    match find_named(c.contexts, name) {
        Some(i) => Some(c.contexts[i]),
        None => match c.current_context {
            Some(cur) => match find_named(c.contexts, cur) {
                Some(i) => Some(c.contexts[i]),
                None => None,
            },
            None => if c.contexts.len() > 0 {
                Some(c.contexts[0])
            } else {
                None
            },
        },
    }
}

/// A user's YAML with `token` set under its `user` mapping, when it has one.
pub open spec fn with_user_token(rest: YamlView, token: Seq<char>) -> YamlView {
    match rest {
        YamlView::Mapping(m) => match lookup(m, "user"@) {
            Some(YamlView::Mapping(um)) => YamlView::Mapping(
                insert_entry(m, "user"@, YamlView::Mapping(insert_entry(um, "token"@, YamlView::Str(token)))),
            ),
            _ => rest,
        },
        _ => rest,
    }
}

/// The kubeconfig with a refreshed token given to the user of the target
/// context (see `token_target`); unchanged when that user is not found.
pub open spec fn token_refreshed(c: KubeConfigView, name: Seq<char>, token: Seq<char>) -> KubeConfigView {
    match token_target(c, name) {
        Some(ctx) => match context_refs(ctx.rest) {
            Ok((_, user)) => match find_named(c.users, user) {
                Some(j) => KubeConfigView {
                    users: c.users.update(
                        j,
                        NamedItemView { name: c.users[j].name, rest: with_user_token(c.users[j].rest, token) },
                    ),
                    ..c
                },
                None => c,
            },
            Err(_) => c,
        },
        None => c,
    }
}

/// The token that `oc whoami -t` printed, trimmed; none when it printed
/// only blanks.
pub fn refreshed_token(stdout: &str) -> (r: Option<String>)
    ensures
        match r {
            Some(t) => t@ == trim(stdout@) && t@.len() > 0,
            None => trim(stdout@).len() == 0,
        },
{
    let t = str_trim(stdout);
    let n = chars_of(t.as_str()).len();
    if n == 0 {
        None
    } else {
        Some(t)
    }
}

/// The user's YAML with the token set.
fn user_with_token(rest: &YamlValue, token: &str) -> (r: YamlValue)
    ensures
        r@ == with_user_token(rest@, token@),
{
    match rest {
        YamlValue::Mapping(m) => {
            proof {
                lemma_mapping_view(*m);
            }
            match map_get(m, "user") {
                Some(YamlValue::Mapping(um)) => {
                    proof {
                        lemma_mapping_view(*um);
                    }
                    let mut inner: Vec<YamlEntry> = Vec::new();
                    let mut i: usize = 0;
                    while i < um.len()
                        invariant
                            i <= um@.len(),
                            inner@.len() == i,
                            forall|j: int| 0 <= j < i ==> (#[trigger] inner@[j]).key@ == um@[j].key@ && inner@[j].value@ == um@[j].value@,
                        decreases um.len() - i,
                    {
                        inner.push(YamlEntry { key: copy_value(&um[i].key), value: copy_value(&um[i].value) });
                        i = i + 1;
                    }
                    assert(entries_view(inner@) =~= entries_view(um@));
                    map_insert(&mut inner, owned("token"), YamlValue::Str(owned(token)));
                    let mut outer: Vec<YamlEntry> = Vec::new();
                    let mut k: usize = 0;
                    while k < m.len()
                        invariant
                            k <= m@.len(),
                            outer@.len() == k,
                            forall|j: int| 0 <= j < k ==> (#[trigger] outer@[j]).key@ == m@[j].key@ && outer@[j].value@ == m@[j].value@,
                        decreases m.len() - k,
                    {
                        outer.push(YamlEntry { key: copy_value(&m[k].key), value: copy_value(&m[k].value) });
                        k = k + 1;
                    }
                    assert(entries_view(outer@) =~= entries_view(m@));
                    proof {
                        lemma_mapping_view(inner);
                    }
                    map_insert(&mut outer, owned("user"), YamlValue::Mapping(inner));
                    proof {
                        lemma_mapping_view(outer);
                    }
                    YamlValue::Mapping(outer)
                },
                _ => copy_value(rest),
            }
        },
        _ => copy_value(rest),
    }
}

/// Gives the refreshed token to the user of the login's context (see
/// `token_refreshed`).
pub fn set_refreshed_token(cfg: &mut KubeConfig, context_name: &str, token: &str)
    ensures
        final(cfg)@ == token_refreshed(old(cfg)@, context_name@, token@),
{
    let target: Option<usize> = match find_item(&cfg.contexts, context_name) {
        Some(i) => Some(i),
        None => match &cfg.current_context {
            Some(cur) => find_item(&cfg.contexts, cur.as_str()),
            None => if cfg.contexts.len() > 0 {
                Some(0)
            } else {
                None
            },
        },
    };
    match target {
        Some(i) => {
            assert(token_target(cfg@, context_name@) == Some(cfg@.contexts[i as int]));
            match crate::kubeconfig::extract_context_refs(&cfg.contexts[i].rest) {
                Ok((_, user)) => {
                    match find_item(&cfg.users, user.as_str()) {
                        Some(j) => {
                            let rest = user_with_token(&cfg.users[j].rest, token);
                            let name = cfg.users[j].name.clone();
                            let ghost old_users = cfg.users@;
                            cfg.users.set(j, NamedItem { name, rest });
                            assert(items_view(cfg.users@) =~= items_view(old_users).update(
                                j as int,
                                NamedItemView {
                                    name: old_users[j as int].name@,
                                    rest: with_user_token(old_users[j as int].rest@, token@),
                                },
                            ));
                        },
                        None => {},
                    }
                },
                Err(_) => {},
            }
        },
        None => {},
    }
}

// ---------------------------------------------------------------------------
// Rancher
// ---------------------------------------------------------------------------

/// The credentials a Rancher login finds in the vault: those under
/// `rancher:{cluster_server}`, else those under the older
/// `{server}:{context}`; with the auth provider stored with them, else
/// `default_provider`.
pub fn rancher_stored_login(
    vault: &Vault,
    cluster_server: &str,
    server: &str,
    context_name: &str,
    default_provider: &str,
) -> (r: Option<(VaultEntry, String)>)
    requires
        vault.wf(),
    ensures
        match r {
            Some((e, p)) => {
                &&& (if vault@.contains_key("rancher:"@ + cluster_server@) {
                    e@ == vault@["rancher:"@ + cluster_server@]
                } else {
                    vault@.contains_key(server@ + ":"@ + context_name@) && e@ == vault@[server@ + ":"@ + context_name@]
                })
                &&& p@ == match e@.rancher_auth_provider {
                    Some(x) => x,
                    None => default_provider@,
                }
            },
            None => !vault@.contains_key("rancher:"@ + cluster_server@) && !vault@.contains_key(
                server@ + ":"@ + context_name@,
            ),
        },
{
    let primary = concat("rancher:", cluster_server);
    let legacy = concat(concat(server, ":").as_str(), context_name);
    let found = match vault.get(primary.as_str()) {
        Some(e) => Some(e),
        None => vault.get(legacy.as_str()),
    };
    match found {
        Some(e) => {
            let p = match &e.rancher_auth_provider {
                Some(x) => x.clone(),
                None => owned(default_provider),
            };
            Some((e, p))
        },
        None => None,
    }
}

/// Whether a Rancher login looks up the cluster's proxy URL: on a re-login
/// (a cluster server was given) whose URL is not already a proxy URL.
pub open spec fn rancher_proxy_lookup_needed(cluster_server: Seq<char>, override_given: bool) -> bool {
    !server_base(cluster_server).1 && override_given
}

/// Whether a Rancher login looks up the cluster's proxy URL.
pub fn rancher_needs_proxy_lookup(cluster_server: &str, override_given: bool) -> (r: bool)
    ensures
        r == rancher_proxy_lookup_needed(cluster_server@, override_given),
{
    let (_, is_proxy) = rancher_server_base_url(cluster_server);
    !is_proxy && override_given
}

/// The cluster URL a Rancher kubeconfig points at: the proxy URL found for
/// it when one was looked up and found, else the URL the login started
/// from.
pub fn rancher_cluster_server(initial: &str, override_given: bool, found: Option<&str>) -> (r: String)
    ensures
        r@ == (if rancher_proxy_lookup_needed(initial@, override_given) {
            match found {
                Some(u) => u@,
                None => initial@,
            }
        } else {
            initial@
        }),
{
    if rancher_needs_proxy_lookup(initial, override_given) {
        match found {
            Some(u) => owned(u),
            None => owned(initial),
        }
    } else {
        owned(initial)
    }
}

/// Where a Rancher login's credentials come from.
#[derive(Debug)]
pub enum RancherCredSource {
    /// The token given.
    Token(String),
    /// The username and password given; the one missing is asked for.
    Given { ask_username: bool, ask_password: bool },
    /// The vault's credentials, with the auth provider to use.
    Vault { entry: VaultEntry, provider: String },
    /// Both asked for.
    Prompt,
}

/// The content of a credential source.
pub enum RancherCredSourceView {
    Token(Seq<char>),
    Given { ask_username: bool, ask_password: bool },
    Vault { entry: VaultEntryView, provider: Seq<char> },
    Prompt,
}

impl View for RancherCredSource {
    type V = RancherCredSourceView;

    open spec fn view(&self) -> RancherCredSourceView {
        match self {
            RancherCredSource::Token(t) => RancherCredSourceView::Token(t@),
            RancherCredSource::Given { ask_username, ask_password } => RancherCredSourceView::Given {
                ask_username: *ask_username,
                ask_password: *ask_password,
            },
            RancherCredSource::Vault { entry, provider } => RancherCredSourceView::Vault {
                entry: entry@,
                provider: provider@,
            },
            RancherCredSource::Prompt => RancherCredSourceView::Prompt,
        }
    }
}

/// Where a Rancher login's credentials come from: a token given; else the
/// username and password given, either of them (the other asked for); else
/// with the vault in use, the credentials stored there; else both asked
/// for.
pub open spec fn rancher_source(
    token: Option<Seq<char>>,
    username_given: bool,
    password_given: bool,
    use_vault: bool,
    stored: Option<(VaultEntryView, Seq<char>)>,
) -> RancherCredSourceView {
    match token {
        Some(t) => RancherCredSourceView::Token(t),
        None => if username_given || password_given {
            RancherCredSourceView::Given { ask_username: !username_given, ask_password: !password_given }
        } else {
            match stored {
                Some((e, p)) => if use_vault {
                    RancherCredSourceView::Vault { entry: e, provider: p }
                } else {
                    RancherCredSourceView::Prompt
                },
                None => RancherCredSourceView::Prompt,
            }
        },
    }
}

/// Where a Rancher login's credentials come from; `stored` is what the
/// vault holds for it (`rancher_stored_login`).
pub fn rancher_credential_source(
    token: Option<&str>,
    username_given: bool,
    password_given: bool,
    use_vault: bool,
    stored: Option<(VaultEntry, String)>,
) -> (r: RancherCredSource)
    ensures
        r@ == rancher_source(
            match token {
                Some(t) => Some(t@),
                None => None,
            },
            username_given,
            password_given,
            use_vault,
            match stored {
                Some((e, p)) => Some((e@, p@)),
                None => None,
            },
        ),
{
    match token {
        Some(t) => RancherCredSource::Token(owned(t)),
        None => if username_given || password_given {
            RancherCredSource::Given { ask_username: !username_given, ask_password: !password_given }
        } else {
            match stored {
                Some((entry, provider)) => if use_vault {
                    RancherCredSource::Vault { entry, provider }
                } else {
                    RancherCredSource::Prompt
                },
                None => RancherCredSource::Prompt,
            }
        },
    }
}

/// Whether a Rancher login offers to save the credentials to the vault:
/// with the vault in use, when neither a token nor credentials were given.
pub fn rancher_offer_save(token_given: bool, creds_given: bool, use_vault: bool) -> (r: bool)
    ensures
        r == (!token_given && !creds_given && use_vault),
{
    !token_given && !creds_given && use_vault
}

} // verus!

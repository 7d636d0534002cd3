//! Rancher: proxy URLs, auth providers, the kubeconfig for a proxied
//! cluster, and the naming of pulled clusters.

use vstd::prelude::*;
use crate::error::{ErrorKind, K8pkError};
use crate::kubeconfig::{
    sanitize_filename, sanitized, KubeConfig, KubeConfigView, NamedItem, NamedItemView,
};
use crate::login::{authority_of, opt_view};
use crate::kubeconfig::opt_str;
use crate::text::{
    chars_find, chars_of, chars_sub, chars_trim, chars_trim_end_char, concat, contains_seq,
    find_seq, lowercase, owned, str_contains, str_eq, string_of, to_lowercase, trim,
    trim_end_char, views,
};
use crate::yaml::{entries_view, lemma_mapping_view, str_entry, YamlEntry, YamlValue, YamlView};

verus! {

/// The Rancher proxy URL (`{base}/k8s/clusters/{id}`) that a server URL
/// points into, if it points into one.
pub open spec fn proxy_url_of(server: Seq<char>) -> Option<Seq<char>> {
    match find_seq(server, "/k8s/clusters/"@) {
        None => None,
        Some(pos) => {
            let id = authority_of(server.subrange(pos + 14, server.len() as int));
            if id.len() == 0 {
                None
            } else {
                Some(trim_end_char(server.subrange(0, pos), '/') + "/k8s/clusters/"@ + id)
            }
        },
    }
}

fn prefix_before_slash(s: &[char]) -> (r: Vec<char>)
    ensures
        r@ == authority_of(s@),
{
    let slash = vec!['/'];
    assert(slash@ =~= seq!['/']);
    match chars_find(s, &slash) {
        Some(k) => {
            proof {
                crate::text::lemma_find_from(s@, slash@, 0);
            }
            chars_sub(s, 0, k)
        },
        None => chars_sub(s, 0, s.len()),
    }
}

/// The Rancher proxy URL for a server URL that already is one (possibly
/// with a longer path).
pub fn rancher_proxy_url_if_cluster_url(server: &str) -> (r: Option<String>)
    ensures
        match proxy_url_of(server@) {
            Some(u) => r matches Some(s) && s@ == u,
            None => r is None,
        },
{
    let s = chars_of(server);
    let needle = chars_of("/k8s/clusters/");
    proof {
        reveal_strlit("/k8s/clusters/");
    }
    let pos = match chars_find(&s, &needle) {
        Some(p) => p,
        None => {
            return None;
        },
    };
    proof {
        crate::text::lemma_find_from(s@, needle@, 0);
        assert(needle@.len() == 14);
    }
    let n = s.len();
    assert(pos + 14 <= n);
    let rest = chars_sub(&s, pos + 14, n);
    let id = prefix_before_slash(&rest);
    if id.len() == 0 {
        return None;
    }
    let head = chars_sub(&s, 0, pos);
    let base = chars_trim_end_char(&head, '/');
    let url = concat(concat(string_of(&base).as_str(), "/k8s/clusters/").as_str(), string_of(&id).as_str());
    Some(url)
}

/// Whether an error from a Rancher call is an authentication failure (401).
pub open spec fn is_auth_401(e: K8pkError) -> bool {
    match e {
        K8pkError::LoginFailed(m) => contains_seq(m@, "401"@) || contains_seq(m@, "Unauthorized"@),
        K8pkError::HttpError(m) => contains_seq(m@, "401"@) || contains_seq(m@, "Unauthorized"@),
        _ => false,
    }
}

/// Whether an error from a Rancher call is an authentication failure.
pub fn rancher_auth_error_is_401(e: &K8pkError) -> (r: bool)
    ensures
        r == is_auth_401(*e),
{
    match e {
        K8pkError::LoginFailed(m) => str_contains(m.as_str(), "401") || str_contains(m.as_str(), "Unauthorized"),
        K8pkError::HttpError(m) => str_contains(m.as_str(), "401") || str_contains(m.as_str(), "Unauthorized"),
        _ => false,
    }
}

/// The API path of a Rancher auth provider: a path (anything with `/`) as
/// given, a known short name (case-insensitive) mapped to its provider, and
/// anything else the local provider.
pub open spec fn provider_path(provider: Seq<char>) -> Seq<char> {
    let t = trim(provider);
    let l = lowercase(t);
    if contains_seq(t, "/"@) {
        t
    } else if l == "activedirectory"@ || l == "ad"@ {
        "activeDirectoryProviders/activedirectory"@
    } else if l == "openldap"@ || l == "ldap"@ {
        "openLdapProviders/openldap"@
    } else if l == "freeipa"@ || l == "ipa"@ {
        "freeIpaProviders/freeipa"@
    } else if l == "azuread"@ || l == "azure"@ {
        "azureADProviders/azuread"@
    } else if l == "github"@ {
        "githubProviders/github"@
    } else {
        "localProviders/local"@
    }
}

/// The API path of a Rancher auth provider.
pub fn rancher_auth_provider_path(provider: &str) -> (r: String)
    ensures
        r@ == provider_path(provider@),
{
    let pc = chars_of(provider);
    let t = string_of(&chars_trim(&pc));
    if str_contains(t.as_str(), "/") {
        return t;
    }
    let lower = to_lowercase(t.as_str());
    let l = lower.as_str();
    if str_eq(l, "activedirectory") || str_eq(l, "ad") {
        owned("activeDirectoryProviders/activedirectory")
    } else if str_eq(l, "openldap") || str_eq(l, "ldap") {
        owned("openLdapProviders/openldap")
    } else if str_eq(l, "freeipa") || str_eq(l, "ipa") {
        owned("freeIpaProviders/freeipa")
    } else if str_eq(l, "azuread") || str_eq(l, "azure") {
        owned("azureADProviders/azuread")
    } else if str_eq(l, "github") {
        owned("githubProviders/github")
    } else {
        owned("localProviders/local")
    }
}

/// The Rancher server a URL belongs to, and whether the URL is a cluster
/// proxy URL (one with `/k8s/clusters`); trailing slashes are dropped.
pub open spec fn server_base(server: Seq<char>) -> (Seq<char>, bool) {
    match find_seq(server, "/k8s/clusters"@) {
        Some(idx) => (trim_end_char(server.subrange(0, idx), '/'), true),
        None => (trim_end_char(server, '/'), false),
    }
}

/// The Rancher server base URL of a server URL.
pub fn rancher_server_base_url(server: &str) -> (r: (String, bool))
    ensures
        (r.0@, r.1) == server_base(server@),
{
    let s = chars_of(server);
    let needle = chars_of("/k8s/clusters");
    match chars_find(&s, &needle) {
        Some(idx) => {
            proof {
                crate::text::lemma_find_from(s@, needle@, 0);
            }
            let head = chars_sub(&s, 0, idx);
            (string_of(&chars_trim_end_char(&head, '/')), true)
        },
        None => (string_of(&chars_trim_end_char(&s, '/')), false),
    }
}

/// The name shown for a Rancher auth provider.
pub open spec fn provider_label(provider: Seq<char>) -> Seq<char> {
    let l = lowercase(provider);
    if l == "activedirectory"@ || l == "ad"@ {
        "activedirectory"@
    } else if l == "openldap"@ || l == "ldap"@ {
        "openldap"@
    } else if l == "freeipa"@ || l == "ipa"@ {
        "freeipa"@
    } else if l == "azuread"@ || l == "azure"@ {
        "azuread"@
    } else {
        provider
    }
}

/// The name shown for a Rancher auth provider.
pub fn rancher_provider_label(provider: &str) -> (r: String)
    ensures
        r@ == provider_label(provider@),
{
    let lower = to_lowercase(provider);
    let l = lower.as_str();
    if str_eq(l, "activedirectory") || str_eq(l, "ad") {
        owned("activedirectory")
    } else if str_eq(l, "openldap") || str_eq(l, "ldap") {
        owned("openldap")
    } else if str_eq(l, "freeipa") || str_eq(l, "ipa") {
        owned("freeipa")
    } else if str_eq(l, "azuread") || str_eq(l, "azure") {
        owned("azuread")
    } else {
        owned(provider)
    }
}

/// A YAML mapping with string keys.
pub open spec fn ymap(entries: Seq<(Seq<char>, YamlView)>) -> YamlView {
    YamlView::Mapping(entries.map_values(|e: (Seq<char>, YamlView)| (YamlView::Str(e.0), e.1)))
}

/// The kubeconfig for one Rancher-proxied cluster: a context with its
/// cluster (`{name}-cluster`, the proxy URL, TLS checks off with
/// `insecure`) and user (`{name}-user`, the token), and it as current context.
pub open spec fn rancher_kubeconfig(name: Seq<char>, url: Seq<char>, token: Seq<char>, insecure: bool) -> KubeConfigView {
    let cluster_name = name + "-cluster"@;
    let user_name = name + "-user"@;
    KubeConfigView {
        api_version: Some("v1"@),
        kind: Some("Config"@),
        preferences: Some(YamlView::Mapping(Seq::empty())),
        clusters: seq![
            NamedItemView {
                name: cluster_name,
                rest: ymap(
                    seq![
                        (
                            "cluster"@,
                            ymap(
                                seq![("server"@, YamlView::Str(url))] + if insecure {
                                    seq![("insecure-skip-tls-verify"@, YamlView::Bool(true))]
                                } else {
                                    Seq::empty()
                                },
                            ),
                        ),
                    ],
                ),
            },
        ],
        current_context: Some(name),
        contexts: seq![
            NamedItemView {
                name,
                rest: ymap(
                    seq![
                        (
                            "context"@,
                            ymap(
                                seq![
                                    ("cluster"@, YamlView::Str(cluster_name)),
                                    ("user"@, YamlView::Str(user_name)),
                                ],
                            ),
                        ),
                    ],
                ),
            },
        ],
        users: seq![
            NamedItemView {
                name: user_name,
                rest: ymap(seq![("user"@, ymap(seq![("token"@, YamlView::Str(token))]))]),
            },
        ],
        extensions: None,
    }
}

fn single_entry_map(k: &str, v: YamlValue) -> (r: YamlValue)
    ensures
        r@ == ymap(seq![(k@, v@)]),
{
    let mut es: Vec<YamlEntry> = Vec::new();
    es.push(YamlEntry { key: YamlValue::Str(owned(k)), value: v });
    proof {
        lemma_mapping_view(es);
        assert(entries_view(es@) =~= seq![(k@, es@[0].value@)].map_values(
            |e: (Seq<char>, YamlView)| (YamlView::Str(e.0), e.1),
        ));
    }
    YamlValue::Mapping(es)
}

/// Builds the kubeconfig for one Rancher-proxied cluster.
pub fn build_rancher_kubeconfig(context_name: &str, proxy_url: &str, token: &str, insecure: bool) -> (r: KubeConfig)
    ensures
        r@ == rancher_kubeconfig(context_name@, proxy_url@, token@, insecure),
{
    let mut cfg = KubeConfig::default();
    cfg.ensure_defaults(Some(context_name));
    let cluster_name = concat(context_name, "-cluster");
    let user_name = concat(context_name, "-user");

    let mut cluster_map: Vec<YamlEntry> = Vec::new();
    cluster_map.push(str_entry("server", owned(proxy_url)));
    if insecure {
        cluster_map.push(YamlEntry { key: YamlValue::Str(owned("insecure-skip-tls-verify")), value: YamlValue::Bool(true) });
    }
    proof {
        lemma_mapping_view(cluster_map);
        assert(entries_view(cluster_map@) =~= (seq![("server"@, YamlView::Str(proxy_url@))] + if insecure {
            seq![("insecure-skip-tls-verify"@, YamlView::Bool(true))]
        } else {
            Seq::<(Seq<char>, YamlView)>::empty()
        }).map_values(|e: (Seq<char>, YamlView)| (YamlView::Str(e.0), e.1)));
    }
    let cluster_rest = single_entry_map("cluster", YamlValue::Mapping(cluster_map));
    cfg.clusters.push(NamedItem { name: owned(cluster_name.as_str()), rest: cluster_rest });

    let token_map = single_entry_map("token", YamlValue::Str(owned(token)));
    let user_rest = single_entry_map("user", token_map);
    cfg.users.push(NamedItem { name: owned(user_name.as_str()), rest: user_rest });

    let mut ctx_map: Vec<YamlEntry> = Vec::new();
    ctx_map.push(str_entry("cluster", cluster_name));
    ctx_map.push(str_entry("user", user_name));
    proof {
        lemma_mapping_view(ctx_map);
        assert(entries_view(ctx_map@) =~= seq![
            ("cluster"@, YamlView::Str(context_name@ + "-cluster"@)),
            ("user"@, YamlView::Str(context_name@ + "-user"@)),
        ].map_values(|e: (Seq<char>, YamlView)| (YamlView::Str(e.0), e.1)));
    }
    let ctx_rest = single_entry_map("context", YamlValue::Mapping(ctx_map));
    cfg.contexts.push(NamedItem { name: owned(context_name), rest: ctx_rest });
    cfg.current_context = Some(owned(context_name));
    assert(cfg@.clusters =~= rancher_kubeconfig(context_name@, proxy_url@, token@, insecure).clusters);
    assert(cfg@.users =~= rancher_kubeconfig(context_name@, proxy_url@, token@, insecure).users);
    assert(cfg@.contexts =~= rancher_kubeconfig(context_name@, proxy_url@, token@, insecure).contexts);
    cfg
}


// ---------------------------------------------------------------------------
// Clusters listed by Rancher
// ---------------------------------------------------------------------------

/// Minimal info about a downstream cluster managed by Rancher.
#[derive(Debug, Clone, PartialEq, Eq)]
pub struct RancherClusterInfo {
    pub id: String,
    pub name: String,
}

/// The name shown for a listed cluster: its `name`, else its display name,
/// else its id (empty names do not count).
pub open spec fn cluster_name_of(id: Seq<char>, name: Option<Seq<char>>, display_name: Option<Seq<char>>) -> Seq<char> {
    match name {
        Some(n) if n.len() > 0 => n,
        _ => match display_name {
            Some(d) if d.len() > 0 => d,
            _ => id,
        },
    }
}

/// The info of one cluster entry of Rancher's listing, or `None` when the
/// entry has no id (such entries are skipped).
pub fn rancher_cluster_entry(id: Option<&str>, name: Option<&str>, display_name: Option<&str>) -> (r: Option<RancherClusterInfo>)
    ensures
        match id {
            None => r is None,
            Some(i) => r matches Some(c) && c.id@ == i@ && c.name@ == cluster_name_of(
                i@,
                crate::login::opt_view(name),
                crate::login::opt_view(display_name),
            ),
        },
{
    let i = match id {
        Some(i) => i,
        None => {
            return None;
        },
    };
    let name_ok = match name {
        Some(n) => chars_of(n).len() > 0,
        None => false,
    };
    let display_ok = match display_name {
        Some(d) => chars_of(d).len() > 0,
        None => false,
    };
    let n: &str = if name_ok {
        name.unwrap()
    } else if display_ok {
        display_name.unwrap()
    } else {
        i
    };
    Some(RancherClusterInfo { id: owned(i), name: owned(n) })
}

/// One cluster whose kubeconfig was pulled from Rancher.
#[derive(Debug, Clone)]
pub struct PulledCluster {
    pub name: String,
    pub id: String,
    pub context_name: String,
    pub kubeconfig_path: String,
}

/// The context names given to pulled clusters, in order, with the names
/// taken so far: `rancher-{name}` with the name made file-safe, or, when
/// that is taken, `rancher-{name}-{id}`.
pub open spec fn pulled_names(clusters: Seq<(Seq<char>, Seq<char>)>) -> (Seq<Seq<char>>, Set<Seq<char>>)
    decreases clusters.len(),
{
    if clusters.len() == 0 {
        (Seq::empty(), Set::empty())
    } else {
        let (names, used) = pulled_names(clusters.drop_last());
        let (n, id) = clusters.last();
        let base = "rancher-"@ + sanitized(n);
        if used.contains(base) {
            let c = base + "-"@ + id;
            (names.push(c), used.insert(c))
        } else {
            (names.push(base), used.insert(base))
        }
    }
}

/// The (name, id) of each cluster.
pub open spec fn name_ids(cs: Seq<RancherClusterInfo>) -> Seq<(Seq<char>, Seq<char>)> {
    cs.map_values(|c: RancherClusterInfo| (c.name@, c.id@))
}

/// The context name for each pulled cluster.
pub fn pulled_context_names(clusters: &[RancherClusterInfo]) -> (r: Vec<String>)
    ensures
        views(r@) == pulled_names(name_ids(clusters@)).0,
{
    let ghost ni = name_ids(clusters@);
    let mut names: Vec<String> = Vec::new();
    let mut used: Vec<String> = Vec::new();
    let mut i: usize = 0;
    assert(ni.take(0) =~= Seq::<(Seq<char>, Seq<char>)>::empty());
    assert(views(names@) =~= Seq::<Seq<char>>::empty());
    while i < clusters.len()
        invariant
            i <= clusters@.len(),
            ni == name_ids(clusters@),
            views(names@) == pulled_names(ni.take(i as int)).0,
            forall|n: Seq<char>| #[trigger] views(used@).contains(n) <==> pulled_names(ni.take(i as int)).1.contains(n),
        decreases clusters.len() - i,
    {
        assert(ni.take(i + 1).drop_last() =~= ni.take(i as int));
        assert(ni.take(i + 1).last() == (clusters@[i as int].name@, clusters@[i as int].id@));
        let san = sanitize_filename(clusters[i].name.as_str());
        let base = concat("rancher-", san.as_str());
        let ghost uv = views(used@);
        let ghost nv = views(names@);
        let taken = crate::kubeconfig_ops::contains_str(&used, base.as_str());
        let c = if taken {
            concat(concat(base.as_str(), "-").as_str(), clusters[i].id.as_str())
        } else {
            base
        };
        used.push(owned(c.as_str()));
        names.push(c);
        proof {
            assert(views(names@) =~= nv.push(names@.last()@));
            assert(views(used@) =~= uv.push(used@.last()@));
            assert forall|n: Seq<char>| #[trigger] views(used@).contains(n) <==> pulled_names(ni.take(i + 1)).1.contains(n) by {
                crate::kubeconfig_ops::lemma_contains_push(uv, used@.last()@, n);
            }
        }
        i = i + 1;
    }
    assert(ni.take(clusters.len() as int) =~= ni);
    names
}

// ---------------------------------------------------------------------------
// Rancher API answers
// ---------------------------------------------------------------------------

/// ASCII lower-casing of one character.
pub open spec fn ascii_lower(c: char) -> char {
    if 'A' <= c && c <= 'Z' {
        ((c as u32) + 32) as char
    } else {
        c
    }
}

/// std's `str::eq_ignore_ascii_case`.
pub open spec fn eq_ignore_ascii_case(a: Seq<char>, b: Seq<char>) -> bool {
    a.len() == b.len() && forall|i: int| 0 <= i < a.len() ==> ascii_lower(#[trigger] a[i]) == ascii_lower(b[i])
}

fn ascii_lower_exec(c: char) -> (r: char)
    ensures
        r == ascii_lower(c),
{
    if 'A' <= c && c <= 'Z' {
        let u: u32 = (c as u32) + 32;
        char_from_ascii(u)
    } else {
        c
    }
}

fn char_from_ascii(u: u32) -> (r: char)
    requires
        97 <= u <= 122,
    ensures
        r == u as char,
{
    let b: u8 = u as u8;
    b as char
}

/// Whether two strings are equal up to ASCII case.
pub fn str_eq_ignore_ascii_case(a: &str, b: &str) -> (r: bool)
    ensures
        r == eq_ignore_ascii_case(a@, b@),
{
    let va = chars_of(a);
    let vb = chars_of(b);
    if va.len() != vb.len() {
        return false;
    }
    let mut i: usize = 0;
    while i < va.len()
        invariant
            va.len() == vb.len(),
            i <= va.len(),
            va@ == a@,
            vb@ == b@,
            forall|k: int| 0 <= k < i ==> ascii_lower(#[trigger] va@[k]) == ascii_lower(vb@[k]),
        decreases va.len() - i,
    {
        if ascii_lower_exec(va[i]) != ascii_lower_exec(vb[i]) {
            return false;
        }
        i = i + 1;
    }
    true
}

/// A 2xx status.
pub open spec fn is_success(status: u16) -> bool {
    200 <= status && status <= 299
}

/// The error for the status of Rancher's answer to a cluster listing, if
/// the status is not a success; `status_text` is how the status reads
/// (such as `500 Internal Server Error`).
pub fn list_clusters_status_error(status: u16, status_text: &str) -> (r: Option<K8pkError>)
    ensures
        status == 401 ==> (r matches Some(e) && e.is(
            ErrorKind::LoginFailed,
            "Rancher rejected the token while listing clusters (401 Unauthorized)"@,
        )),
        status != 401 && !is_success(status) ==> (r matches Some(e) && e.is(
            ErrorKind::HttpError,
            "failed to list Rancher clusters (HTTP "@ + status_text@ + ")"@,
        )),
        is_success(status) ==> r is None,
{
    if status == 401 {
        return Some(K8pkError::LoginFailed(owned("Rancher rejected the token while listing clusters (401 Unauthorized)")));
    }
    if !(200 <= status && status <= 299) {
        return Some(K8pkError::HttpError(
            concat(concat("failed to list Rancher clusters (HTTP ", status_text).as_str(), ")"),
        ));
    }
    None
}

/// The hint added to a 401 from the Active Directory provider.
pub open spec fn ad_hint(provider: Seq<char>) -> Seq<char> {
    if eq_ignore_ascii_case(provider, "activedirectory"@) {
        " Try --rancher-auth-provider local if your Rancher uses local users only."@
    } else {
        Seq::empty()
    }
}

/// The error for the status of Rancher's answer to a login, if the status
/// is not a success.
pub fn login_status_error(status: u16, status_text: &str, body: &str, provider: &str) -> (r: Option<K8pkError>)
    ensures
        status == 401 ==> (r matches Some(e) && e.is(
            ErrorKind::LoginFailed,
            "Rancher authentication failed (401 Unauthorized): "@ + trim(body@) + ad_hint(provider@),
        )),
        status != 401 && !is_success(status) ==> (r matches Some(e) && e.is(
            ErrorKind::HttpError,
            "Rancher authentication failed (HTTP "@ + status_text@ + "): "@ + body@,
        )),
        is_success(status) ==> r is None,
{
    if status == 401 {
        let hint = if str_eq_ignore_ascii_case(provider, "activedirectory") {
            " Try --rancher-auth-provider local if your Rancher uses local users only."
        } else {
            ""
        };
        proof {
            reveal_strlit("");
        }
        let bc = chars_of(body);
        let trimmed = string_of(&chars_trim(&bc));
        let msg = concat(
            concat("Rancher authentication failed (401 Unauthorized): ", trimmed.as_str()).as_str(),
            hint,
        );
        return Some(K8pkError::LoginFailed(msg));
    }
    if !(200 <= status && status <= 299) {
        let msg = concat(
            concat(concat("Rancher authentication failed (HTTP ", status_text).as_str(), "): ").as_str(),
            body,
        );
        return Some(K8pkError::HttpError(msg));
    }
    None
}

/// The auth providers to try in turn for a Rancher login; a provider after
/// the first is tried only when the one before answered 401.
pub open spec fn provider_attempts(provider: Seq<char>) -> Seq<Seq<char>> {
    let p = trim(provider);
    if eq_ignore_ascii_case(p, "auto"@) {
        seq!["local"@, "activedirectory"@, "openldap"@, "freeipa"@, "azuread"@]
    } else if eq_ignore_ascii_case(p, "local"@) {
        seq!["local"@, "activedirectory"@]
    } else {
        seq![p]
    }
}

/// Whether a Rancher login moves on to the next auth provider after a
/// failure: when the failure is a refusal (401) and another provider is
/// left to try.
pub fn rancher_try_next_provider(attempts_len: usize, i: usize, e: &K8pkError) -> (r: bool)
    ensures
        r == (is_auth_401(*e) && i + 1 < attempts_len),
{
    rancher_auth_error_is_401(e) && i < attempts_len && attempts_len - i > 1
}

/// The auth providers to try in turn for a Rancher login.
pub fn rancher_provider_attempts(provider: &str) -> (r: Vec<String>)
    ensures
        views(r@) == provider_attempts(provider@),
{
    let pc = chars_of(provider);
    let p = string_of(&chars_trim(&pc));
    let mut r: Vec<String> = Vec::new();
    if str_eq_ignore_ascii_case(p.as_str(), "auto") {
        r.push(owned("local"));
        r.push(owned("activedirectory"));
        r.push(owned("openldap"));
        r.push(owned("freeipa"));
        r.push(owned("azuread"));
    } else if str_eq_ignore_ascii_case(p.as_str(), "local") {
        r.push(owned("local"));
        r.push(owned("activedirectory"));
    } else {
        r.push(p);
    }
    assert(views(r@) =~= provider_attempts(provider@));
    r
}

/// The vault key under which credentials for a Rancher server are kept.
pub fn rancher_vault_key(base: &str) -> (r: String)
    ensures
        r@ == "rancher:"@ + base@,
{
    concat("rancher:", base)
}

/// The vault keys tried when re-logging in to a context: `rancher:{server}`,
/// and for a proxy URL also the older `{base}:{context}`.
pub fn rancher_relogin_vault_keys(server: &str, context: &str) -> (r: (String, Option<String>))
    ensures
        r.0@ == "rancher:"@ + server@,
        server_base(server@).1 ==> (r.1 matches Some(k) && k@ == server_base(server@).0 + ":"@ + context@),
        !server_base(server@).1 ==> r.1 is None,
{
    let (base, is_proxy) = rancher_server_base_url(server);
    let primary = concat("rancher:", server);
    let legacy = if is_proxy {
        Some(concat(concat(base.as_str(), ":").as_str(), context))
    } else {
        None
    };
    (primary, legacy)
}

/// The endpoints Rancher reports for one cluster, for matching an API
/// server against.
#[derive(Debug, Clone)]
pub struct ClusterEndpoints {
    /// The cluster's id, if the entry has one.
    pub id: Option<String>,
    /// Its `apiEndpoint`, `clusterEndpoint` and `rke2Endpoint`, those that are strings.
    pub endpoints: Vec<String>,
}

/// What one page of the cluster listing says about the cluster behind an
/// API server.
#[derive(Debug, Clone, PartialEq, Eq)]
pub enum ProxySearch {
    /// The proxy URL of the matching cluster.
    Found(String),
    /// An entry without an id ends the search without a result.
    Stop,
    /// No match on this page.
    Continue,
}

/// The outcome of searching one page, entry by entry.
pub open spec fn proxy_search(base: Seq<char>, api: Seq<char>, cs: Seq<(Option<Seq<char>>, Seq<Seq<char>>)>) -> Option<Option<Seq<char>>>
    decreases cs.len(),
{
    if cs.len() == 0 {
        None
    } else {
        match cs[0].0 {
            None => Some(None),
            Some(id) => if exists|j: int| 0 <= j < cs[0].1.len() && trim_end_char(#[trigger] cs[0].1[j], '/') == trim_end_char(api, '/') {
                Some(Some(trim_end_char(base, '/') + "/k8s/clusters/"@ + id))
            } else {
                proxy_search(base, api, cs.drop_first())
            },
        }
    }
}

/// The content of each entry.
pub open spec fn endpoints_view(cs: Seq<ClusterEndpoints>) -> Seq<(Option<Seq<char>>, Seq<Seq<char>>)> {
    cs.map_values(|c: ClusterEndpoints| (crate::kubeconfig::opt_str(c.id), views(c.endpoints@)))
}

fn endpoint_matches(endpoints: &Vec<String>, api_clean: &Vec<char>) -> (r: bool)
    ensures
        r == exists|j: int| 0 <= j < endpoints@.len() && trim_end_char(#[trigger] views(endpoints@)[j], '/') == api_clean@,
{
    let mut j: usize = 0;
    while j < endpoints.len()
        invariant
            j <= endpoints@.len(),
            forall|k: int| 0 <= k < j ==> trim_end_char(#[trigger] views(endpoints@)[k], '/') != api_clean@,
        decreases endpoints.len() - j,
    {
        let ec = chars_of(endpoints[j].as_str());
        let t = chars_trim_end_char(&ec, '/');
        if crate::text::chars_eq(&t, api_clean) {
            assert(trim_end_char(views(endpoints@)[j as int], '/') == api_clean@);
            return true;
        }
        j = j + 1;
    }
    false
}

/// Searches one page of Rancher's cluster listing for the cluster whose
/// endpoint is `api_server` (trailing slashes ignored).
pub fn proxy_search_page(rancher_server: &str, api_server: &str, clusters: &[ClusterEndpoints]) -> (r: ProxySearch)
    ensures
        match proxy_search(rancher_server@, api_server@, endpoints_view(clusters@)) {
            None => r == ProxySearch::Continue,
            Some(None) => r == ProxySearch::Stop,
            Some(Some(u)) => r matches ProxySearch::Found(s) && s@ == u,
        },
{
    let ghost cv = endpoints_view(clusters@);
    let ac = chars_of(api_server);
    let api_clean = chars_trim_end_char(&ac, '/');
    let mut i: usize = 0;
    assert(cv.subrange(0, cv.len() as int) =~= cv);
    while i < clusters.len()
        invariant
            i <= clusters@.len(),
            cv == endpoints_view(clusters@),
            api_clean@ == trim_end_char(api_server@, '/'),
            proxy_search(rancher_server@, api_server@, cv) == proxy_search(rancher_server@, api_server@, cv.subrange(i as int, cv.len() as int)),
        decreases clusters.len() - i,
    {
        let ghost rest = cv.subrange(i as int, cv.len() as int);
        assert(rest[0] == cv[i as int]);
        assert(cv[i as int].1 == views(clusters@[i as int].endpoints@));
        assert(rest.drop_first() =~= cv.subrange(i + 1, cv.len() as int));
        let id = match &clusters[i].id {
            Some(id) => id,
            None => {
                return ProxySearch::Stop;
            },
        };
        if endpoint_matches(&clusters[i].endpoints, &api_clean) {
            let rc = chars_of(rancher_server);
            let base = string_of(&chars_trim_end_char(&rc, '/'));
            return ProxySearch::Found(concat(concat(base.as_str(), "/k8s/clusters/").as_str(), id.as_str()));
        }
        i = i + 1;
    }
    assert(cv.subrange(clusters.len() as int, cv.len() as int) =~= Seq::<(Option<Seq<char>>, Seq<Seq<char>>)>::empty());
    ProxySearch::Continue
}

// ---------------------------------------------------------------------------
// Rancher API addresses and replies
// ---------------------------------------------------------------------------

/// A server URL with its trailing slashes dropped.
pub fn trimmed_server(server: &str) -> (r: String)
    ensures
        r@ == trim_end_char(server@, '/'),
{
    let s = chars_of(server);
    string_of(&chars_trim_end_char(&s, '/'))
}

/// The login endpoint of an auth provider on a Rancher server.
pub fn rancher_login_url(server: &str, provider: &str) -> (r: String)
    ensures
        r@ == trim_end_char(server@, '/') + "/v3-public/"@ + provider_path(provider@) + "?action=login"@,
{
    let base = trimmed_server(server);
    let path = rancher_auth_provider_path(provider);
    let a = concat(base.as_str(), "/v3-public/");
    let b = concat(a.as_str(), path.as_str());
    concat(b.as_str(), "?action=login")
}

/// The first page of a Rancher server's cluster listing.
pub fn clusters_page_url(server: &str) -> (r: String)
    ensures
        r@ == trim_end_char(server@, '/') + "/v3/clusters?limit=500"@,
{
    let base = trimmed_server(server);
    concat(base.as_str(), "/v3/clusters?limit=500")
}

/// The proxy URL of a downstream cluster on a Rancher server base URL.
pub fn cluster_proxy_url(base: &str, id: &str) -> (r: String)
    ensures
        r@ == base@ + "/k8s/clusters/"@ + id@,
{
    let a = concat(base, "/k8s/clusters/");
    concat(a.as_str(), id)
}

/// The next page of a listing: the `pagination.next` link when it is a
/// non-empty string.
pub fn next_page_url(next: Option<&str>) -> (r: Option<String>)
    ensures
        match next {
            Some(n) => if n@.len() > 0 {
                r matches Some(u) && u@ == n@
            } else {
                r is None
            },
            None => r is None,
        },
{
    match next {
        Some(n) => {
            if chars_of(n).len() > 0 {
                Some(owned(n))
            } else {
                None
            }
        },
        None => None,
    }
}

/// The token of a login reply: the top-level `token` field when there is
/// one, else `data.token`; `Some(None)` stands for a field that is there
/// but not a string.
pub fn reply_token(top: Option<Option<&str>>, nested: Option<Option<&str>>) -> (r: Option<String>)
    ensures
        opt_str(r) == match top {
            Some(t) => opt_view(t),
            None => match nested {
                Some(t) => opt_view(t),
                None => None,
            },
        },
{
    let chosen = match top {
        Some(t) => t,
        None => match nested {
            Some(t) => t,
            None => None,
        },
    };
    match chosen {
        Some(t) => Some(owned(t)),
        None => None,
    }
}

/// The (name, id) pairs whose names are among `matched`, in order.
pub open spec fn clusters_named(cs: Seq<(Seq<char>, Seq<char>)>, matched: Seq<Seq<char>>) -> Seq<(Seq<char>, Seq<char>)>
    decreases cs.len(),
{
    if cs.len() == 0 {
        Seq::empty()
    } else {
        let prev = clusters_named(cs.drop_last(), matched);
        if matched.contains(cs.last().0) {
            prev.push(cs.last())
        } else {
            prev
        }
    }
}

/// The clusters to pull: those whose name the pattern matches (all without
/// a pattern). None listed, or none matched, is an error.
pub fn select_clusters(clusters: Vec<RancherClusterInfo>, pattern: Option<&str>) -> (r: Result<Vec<RancherClusterInfo>, K8pkError>)
    ensures
        clusters@.len() == 0 ==> (r matches Err(e) && e.is(
            ErrorKind::LoginFailed,
            "no clusters found on this Rancher server for the authenticated user"@,
        )),
        clusters@.len() > 0 ==> match pattern {
            None => r matches Ok(v) && v@ == clusters@,
            Some(p) => {
                let sel = clusters_named(
                    name_ids(clusters@),
                    crate::context::pattern_matches(p@, clusters@.map_values(|c: RancherClusterInfo| c.name@)),
                );
                if sel.len() > 0 {
                    r matches Ok(v) && name_ids(v@) == sel
                } else {
                    r matches Err(e) && e.is(ErrorKind::LoginFailed, "no clusters matched pattern '"@ + p@ + "'"@)
                }
            },
        },
{
    if clusters.len() == 0 {
        return Err(K8pkError::LoginFailed(owned("no clusters found on this Rancher server for the authenticated user")));
    }
    match pattern {
        None => Ok(clusters),
        Some(p) => {
            let mut names: Vec<String> = Vec::new();
            let mut i: usize = 0;
            while i < clusters.len()
                invariant
                    i <= clusters@.len(),
                    views(names@) == clusters@.take(i as int).map_values(|c: RancherClusterInfo| c.name@),
                decreases clusters.len() - i,
            {
                let ghost before = names@;
                let n = clusters[i].name.clone();
                names.push(n);
                assert(views(names@) =~= views(before).push(clusters@[i as int].name@));
                assert(clusters@.take(i + 1).map_values(|c: RancherClusterInfo| c.name@) =~= clusters@.take(
                    i as int,
                ).map_values(|c: RancherClusterInfo| c.name@).push(clusters@[i as int].name@));
                i = i + 1;
            }
            assert(clusters@.take(clusters@.len() as int) =~= clusters@);
            let matched = crate::context::match_pattern(p, names.as_slice());
            let ghost mv = views(matched@);
            let mut sel: Vec<RancherClusterInfo> = Vec::new();
            let mut j: usize = 0;
            while j < clusters.len()
                invariant
                    j <= clusters@.len(),
                    mv == views(matched@),
                    name_ids(sel@) == clusters_named(name_ids(clusters@).take(j as int), mv),
                decreases clusters.len() - j,
            {
                assert(name_ids(clusters@).take(j + 1).drop_last() =~= name_ids(clusters@).take(j as int));
                assert(name_ids(clusters@).take(j + 1).last() == (clusters@[j as int].name@, clusters@[j as int].id@));
                if crate::kubeconfig_ops::contains_str(matched.as_slice(), clusters[j].name.as_str()) {
                    let c = RancherClusterInfo { id: clusters[j].id.clone(), name: clusters[j].name.clone() };
                    let ghost before = sel@;
                    sel.push(c);
                    assert(name_ids(sel@) =~= name_ids(before).push((c.name@, c.id@)));
                }
                j = j + 1;
            }
            assert(name_ids(clusters@).take(clusters@.len() as int) =~= name_ids(clusters@));
            assert(clusters@.take(clusters@.len() as int) =~= clusters@);
            if sel.len() == 0 {
                let a = concat("no clusters matched pattern '", p);
                return Err(K8pkError::LoginFailed(concat(a.as_str(), "'")));
            }
            Ok(sel)
        },
    }
}

} // verus!

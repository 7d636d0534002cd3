//! Kubeconfig data: parsing results, lookups, pruning and naming rules.

use vstd::prelude::*;
use crate::error::{ErrorKind, K8pkError};
use crate::strmap::StrMap;
use crate::text::{
    chars_join, chars_of, concat, contains_seq, has_prefix, join_seq, lemma_split_nonempty,
    owned, split_seq, str_contains, str_eq, str_split, str_starts_with, string_of,
    chars_trim_start_seq, trim_start_seq, views,
};
use crate::yaml::{
    copy_value, empty_mapping, entries_view, insert_entry, lemma_mapping_view, lookup, map_get,
    map_insert, map_swap_remove, swap_remove_entry, YamlEntry, YamlValue, YamlView,
};

verus! {

/// Named item in kubeconfig (context, cluster, user): its name and the
/// rest of its YAML mapping.
#[derive(Debug)]
pub struct NamedItem {
    pub name: String,
    pub rest: YamlValue,
}

/// The content of a named item.
pub struct NamedItemView {
    pub name: Seq<char>,
    pub rest: YamlView,
}

impl View for NamedItem {
    type V = NamedItemView;

    open spec fn view(&self) -> NamedItemView {
        NamedItemView { name: self.name@, rest: self.rest@ }
    }
}

/// Kubeconfig file structure.
#[derive(Debug)]
pub struct KubeConfig {
    pub api_version: Option<String>,
    pub kind: Option<String>,
    pub preferences: Option<YamlValue>,
    pub clusters: Vec<NamedItem>,
    pub current_context: Option<String>,
    pub contexts: Vec<NamedItem>,
    pub users: Vec<NamedItem>,
    pub extensions: Option<YamlValue>,
}

/// The content of a kubeconfig.
pub struct KubeConfigView {
    pub api_version: Option<Seq<char>>,
    pub kind: Option<Seq<char>>,
    pub preferences: Option<YamlView>,
    pub clusters: Seq<NamedItemView>,
    pub current_context: Option<Seq<char>>,
    pub contexts: Seq<NamedItemView>,
    pub users: Seq<NamedItemView>,
    pub extensions: Option<YamlView>,
}

/// The view of an optional string.
pub open spec fn opt_str(o: Option<String>) -> Option<Seq<char>> {
    match o {
        Some(s) => Some(s@),
        None => None,
    }
}

/// The view of an optional YAML value.
pub open spec fn opt_yaml(o: Option<YamlValue>) -> Option<YamlView> {
    match o {
        Some(v) => Some(v@),
        None => None,
    }
}

/// The content of each item.
pub open spec fn items_view(v: Seq<NamedItem>) -> Seq<NamedItemView> {
    v.map_values(|i: NamedItem| i@)
}

/// The names of the items.
pub open spec fn names(v: Seq<NamedItemView>) -> Seq<Seq<char>> {
    v.map_values(|i: NamedItemView| i.name)
}

impl View for KubeConfig {
    type V = KubeConfigView;

    open spec fn view(&self) -> KubeConfigView {
        KubeConfigView {
            api_version: opt_str(self.api_version),
            kind: opt_str(self.kind),
            preferences: opt_yaml(self.preferences),
            clusters: items_view(self.clusters@),
            current_context: opt_str(self.current_context),
            contexts: items_view(self.contexts@),
            users: items_view(self.users@),
            extensions: opt_yaml(self.extensions),
        }
    }
}

/// A kubeconfig with nothing in it.
pub open spec fn empty_view() -> KubeConfigView {
    KubeConfigView {
        api_version: None,
        kind: None,
        preferences: None,
        clusters: Seq::empty(),
        current_context: None,
        contexts: Seq::empty(),
        users: Seq::empty(),
        extensions: None,
    }
}

impl Default for KubeConfig {
    fn default() -> (r: KubeConfig)
        ensures
            r@ == empty_view(),
    {
        let r = KubeConfig {
            api_version: None,
            kind: None,
            preferences: None,
            clusters: Vec::new(),
            current_context: None,
            contexts: Vec::new(),
            users: Vec::new(),
            extensions: None,
        };
        assert(r@.clusters =~= Seq::<NamedItemView>::empty());
        assert(r@.contexts =~= Seq::<NamedItemView>::empty());
        assert(r@.users =~= Seq::<NamedItemView>::empty());
        r
    }
}

/// A copy of an optional string.
pub fn copy_opt_str(o: &Option<String>) -> (r: Option<String>)
    ensures
        opt_str(r) == opt_str(*o),
{
    match o {
        Some(s) => Some(s.clone()),
        None => None,
    }
}

/// A copy of an optional YAML value.
pub fn copy_opt_yaml(o: &Option<YamlValue>) -> (r: Option<YamlValue>)
    ensures
        opt_yaml(r) == opt_yaml(*o),
{
    match o {
        Some(v) => Some(copy_value(v)),
        None => None,
    }
}

/// A copy of a named item.
pub fn copy_item(i: &NamedItem) -> (r: NamedItem)
    ensures
        r@ == i@,
{
    NamedItem { name: i.name.clone(), rest: copy_value(&i.rest) }
}

impl KubeConfig {
    /// The kubeconfig with `apiVersion`, `kind` and `preferences` filled in
    /// when absent, and the current context set when absent and given.
    pub open spec fn with_defaults(c: KubeConfigView, current_context: Option<Seq<char>>) -> KubeConfigView {
        KubeConfigView {
            api_version: if c.api_version is None {
                Some("v1"@)
            } else {
                c.api_version
            },
            kind: if c.kind is None {
                Some("Config"@)
            } else {
                c.kind
            },
            preferences: if c.preferences is None {
                Some(YamlView::Mapping(Seq::empty()))
            } else {
                c.preferences
            },
            current_context: if c.current_context is None {
                current_context
            } else {
                c.current_context
            },
            ..c
        }
    }

    /// Ensure required fields have defaults.
    pub fn ensure_defaults(&mut self, current_context: Option<&str>)
        ensures
            final(self)@ == KubeConfig::with_defaults(
                old(self)@,
                match current_context {
                    Some(s) => Some(s@),
                    None => None,
                },
            ),
    {
        if self.api_version.is_none() {
            self.api_version = Some(owned("v1"));
        }
        if self.kind.is_none() {
            self.kind = Some(owned("Config"));
        }
        if self.preferences.is_none() {
            let empty: Vec<YamlEntry> = Vec::new();
            self.preferences = Some(YamlValue::Mapping(empty));
            assert(self.preferences.unwrap()@ == YamlView::Mapping(Seq::empty())) by {
                if let YamlView::Mapping(m) = self.preferences.unwrap()@ {
                    assert(m =~= Seq::<(YamlView, YamlView)>::empty());
                }
            }
        }
        if self.current_context.is_none() {
            if let Some(ctx) = current_context {
                self.current_context = Some(owned(ctx));
            }
        }
    }

    /// Get list of context names.
    pub fn context_names(&self) -> (r: Vec<String>)
        ensures
            views(r@) == names(self@.contexts),
    {
        let mut r: Vec<String> = Vec::new();
        let mut i: usize = 0;
        while i < self.contexts.len()
            invariant
                i <= self.contexts.len(),
                r@.len() == i,
                forall|j: int| 0 <= j < i ==> (#[trigger] r@[j])@ == self.contexts@[j].name@,
            decreases self.contexts.len() - i,
        {
            r.push(self.contexts[i].name.clone());
            i = i + 1;
        }
        assert(views(r@) =~= names(self@.contexts));
        r
    }

    /// Find a context by name.
    pub fn find_context(&self, name: &str) -> (r: Option<&NamedItem>)
        ensures
            match r {
                Some(item) => find_named(self@.contexts, name@) is Some && item@ == self@.contexts[find_named(self@.contexts, name@)->0],
                None => find_named(self@.contexts, name@) is None,
            },
    {
        match find_item(&self.contexts, name) {
            Some(i) => Some(&self.contexts[i]),
            None => None,
        }
    }

    /// Find a cluster by name.
    pub fn find_cluster(&self, name: &str) -> (r: Option<&NamedItem>)
        ensures
            match r {
                Some(item) => find_named(self@.clusters, name@) is Some && item@ == self@.clusters[find_named(self@.clusters, name@)->0],
                None => find_named(self@.clusters, name@) is None,
            },
    {
        match find_item(&self.clusters, name) {
            Some(i) => Some(&self.clusters[i]),
            None => None,
        }
    }

    /// Find a user by name.
    pub fn find_user(&self, name: &str) -> (r: Option<&NamedItem>)
        ensures
            match r {
                Some(item) => find_named(self@.users, name@) is Some && item@ == self@.users[find_named(self@.users, name@)->0],
                None => find_named(self@.users, name@) is None,
            },
    {
        match find_item(&self.users, name) {
            Some(i) => Some(&self.users[i]),
            None => None,
        }
    }
}

/// The first position of an item called `name`.
pub open spec fn find_named(v: Seq<NamedItemView>, name: Seq<char>) -> Option<int>
    decreases v.len(),
{
    if v.len() == 0 {
        None
    } else {
        match find_named(v.drop_last(), name) {
            Some(i) => Some(i),
            None => if v.last().name == name {
                Some(v.len() - 1)
            } else {
                None
            },
        }
    }
}

/// What `find_named` returns.
pub proof fn lemma_find_named(v: Seq<NamedItemView>, name: Seq<char>)
    ensures
        match find_named(v, name) {
            Some(i) => 0 <= i < v.len() && v[i].name == name && forall|j: int|
                0 <= j < i ==> (#[trigger] v[j]).name != name,
            None => forall|j: int| 0 <= j < v.len() ==> (#[trigger] v[j]).name != name,
        },
    decreases v.len(),
{
    if v.len() > 0 {
        lemma_find_named(v.drop_last(), name);
        let d = v.drop_last();
        assert forall|j: int| 0 <= j < d.len() implies d[j] == v[j] by {}
    }
}

/// A position named `name`, with none before, is what `find_named` returns.
pub proof fn lemma_find_named_exact(v: Seq<NamedItemView>, name: Seq<char>, i: int)
    requires
        0 <= i < v.len(),
        v[i].name == name,
        forall|j: int| 0 <= j < i ==> (#[trigger] v[j]).name != name,
    ensures
        find_named(v, name) == Some(i),
{
    lemma_find_named(v, name);
    match find_named(v, name) {
        Some(j) => {
            if j < i {
                assert(v[j].name != name);
            }
            if j > i {
                assert(v[i].name != name);
            }
        },
        None => {
            assert(v[i].name != name);
        },
    }
}

/// The position of the first item called `name`.
pub fn find_item(v: &Vec<NamedItem>, name: &str) -> (r: Option<usize>)
    ensures
        match r {
            Some(i) => i < v@.len() && find_named(items_view(v@), name@) == Some(i as int),
            None => find_named(items_view(v@), name@) is None,
        },
{
    let ghost iv = items_view(v@);
    let mut i: usize = 0;
    while i < v.len()
        invariant
            i <= v.len(),
            iv == items_view(v@),
            forall|j: int| 0 <= j < i ==> (#[trigger] iv[j]).name != name@,
        decreases v.len() - i,
    {
        if str_eq(v[i].name.as_str(), name) {
            proof {
                lemma_find_named_exact(iv, name@, i as int);
            }
            return Some(i);
        }
        i = i + 1;
    }
    proof {
        lemma_find_named(iv, name@);
    }
    None
}

/// The cluster and user that a context's YAML refers to, or the reason it
/// does not name them.
pub open spec fn context_refs(rest: YamlView) -> Result<(Seq<char>, Seq<char>), Seq<char>> {
    match rest {
        YamlView::Mapping(m) => match lookup(m, "context"@) {
            Some(YamlView::Mapping(inner)) => match lookup(inner, "cluster"@) {
                Some(YamlView::Str(c)) => match lookup(inner, "user"@) {
                    Some(YamlView::Str(u)) => Ok((c, u)),
                    _ => Err("missing user name"@),
                },
                _ => Err("missing cluster name"@),
            },
            _ => Err("missing context field"@),
        },
        _ => Err("invalid context object"@),
    }
}

/// Extract cluster and user references from a context.
pub fn extract_context_refs(rest: &YamlValue) -> (r: Result<(String, String), K8pkError>)
    ensures
        match r {
            Ok((c, u)) => context_refs(rest@) == Ok::<(Seq<char>, Seq<char>), Seq<char>>((c@, u@)),
            Err(e) => context_refs(rest@) == Err::<(Seq<char>, Seq<char>), Seq<char>>(e.detail())
                && e.kind() == ErrorKind::InvalidKubeconfig,
        },
{
    match rest {
        YamlValue::Mapping(map) => {
            proof {
                lemma_mapping_view(*map);
            }
            match map_get(map, "context") {
                Some(YamlValue::Mapping(inner)) => {
                    proof {
                        lemma_mapping_view(*inner);
                    }
                    let cluster = match map_get(inner, "cluster") {
                        Some(YamlValue::Str(s)) => s.clone(),
                        _ => {
                            return Err(K8pkError::InvalidKubeconfig(owned("missing cluster name")));
                        },
                    };
                    let user = match map_get(inner, "user") {
                        Some(YamlValue::Str(s)) => s.clone(),
                        _ => {
                            return Err(K8pkError::InvalidKubeconfig(owned("missing user name")));
                        },
                    };
                    Ok((cluster, user))
                },
                _ => Err(K8pkError::InvalidKubeconfig(owned("missing context field"))),
            }
        },
        _ => Err(K8pkError::InvalidKubeconfig(owned("invalid context object"))),
    }
}

/// The server URL that a cluster's YAML names.
pub open spec fn server_url(rest: YamlView) -> Option<Seq<char>> {
    match rest {
        YamlView::Mapping(m) => match lookup(m, "cluster"@) {
            Some(YamlView::Mapping(c)) => match lookup(c, "server"@) {
                Some(YamlView::Str(s)) => Some(s),
                _ => None,
            },
            _ => None,
        },
        _ => None,
    }
}

/// Extract server URL from a cluster's rest data.
pub fn extract_server_url_from_cluster(rest: &YamlValue) -> (r: Option<String>)
    ensures
        opt_str(r) == server_url(rest@),
{
    match rest {
        YamlValue::Mapping(map) => {
            proof {
                lemma_mapping_view(*map);
            }
            match map_get(map, "cluster") {
                Some(YamlValue::Mapping(c)) => {
                    proof {
                        lemma_mapping_view(*c);
                    }
                    match map_get(c, "server") {
                        Some(YamlValue::Str(s)) => Some(s.clone()),
                        _ => None,
                    }
                },
                _ => None,
            }
        },
        _ => None,
    }
}

/// The namespace a context's YAML sets (`context.namespace`), if it is a string.
pub open spec fn context_namespace(rest: YamlView) -> Option<Seq<char>> {
    match rest {
        YamlView::Mapping(m) => match lookup(m, "context"@) {
            Some(YamlView::Mapping(inner)) => match lookup(inner, "namespace"@) {
                Some(YamlView::Str(ns)) => Some(ns),
                _ => None,
            },
            _ => None,
        },
        _ => None,
    }
}

/// The namespace a context's YAML sets, if any.
pub fn extract_context_namespace(rest: &YamlValue) -> (r: Option<String>)
    ensures
        opt_str(r) == context_namespace(rest@),
{
    match rest {
        YamlValue::Mapping(map) => {
            proof {
                lemma_mapping_view(*map);
            }
            match map_get(map, "context") {
                Some(YamlValue::Mapping(inner)) => {
                    proof {
                        lemma_mapping_view(*inner);
                    }
                    match map_get(inner, "namespace") {
                        Some(YamlValue::Str(ns)) => Some(ns.clone()),
                        _ => None,
                    }
                },
                _ => None,
            }
        },
        _ => None,
    }
}

/// A context's YAML with `namespace` set under its `context` mapping.
pub open spec fn with_namespace(rest: YamlView, ns: Seq<char>) -> YamlView {
    let map = match rest {
        YamlView::Mapping(m) => m,
        _ => Seq::empty(),
    };
    let inner = match lookup(map, "context"@) {
        Some(YamlView::Mapping(m)) => m,
        _ => Seq::empty(),
    };
    YamlView::Mapping(
        insert_entry(
            swap_remove_entry(map, "context"@),
            "context"@,
            YamlView::Mapping(insert_entry(inner, "namespace"@, YamlView::Str(ns))),
        ),
    )
}

/// Set the namespace for a context in a kubeconfig.
pub fn set_context_namespace(cfg: &mut KubeConfig, context_name: &str, ns: &str) -> (r: Result<(), K8pkError>)
    ensures
        match find_named(old(cfg)@.contexts, context_name@) {
            Some(i) => r is Ok && final(cfg)@ == KubeConfigView {
                contexts: old(cfg)@.contexts.update(
                    i,
                    NamedItemView {
                        name: old(cfg)@.contexts[i].name,
                        rest: with_namespace(old(cfg)@.contexts[i].rest, ns@),
                    },
                ),
                ..old(cfg)@
            },
            None => r matches Err(e) && e.is(ErrorKind::ContextNotFound, context_name@)
                && final(cfg)@ == old(cfg)@,
        },
{
    match find_item(&cfg.contexts, context_name) {
        Some(i) => {
            let rest_copy = copy_value(&cfg.contexts[i].rest);
            let mut map: Vec<YamlEntry> = match rest_copy {
                YamlValue::Mapping(m) => {
                    proof {
                        lemma_mapping_view(m);
                    }
                    m
                },
                _ => Vec::new(),
            };
            let ghost map0 = entries_view(map@);
            assert(map0 == match cfg.contexts@[i as int].rest@ {
                YamlView::Mapping(m) => m,
                _ => Seq::<(YamlView, YamlView)>::empty(),
            });
            let removed = map_swap_remove(&mut map, "context");
            let mut inner: Vec<YamlEntry> = match removed {
                Some(YamlValue::Mapping(m)) => {
                    proof {
                        lemma_mapping_view(m);
                    }
                    m
                },
                _ => Vec::new(),
            };
            assert(entries_view(inner@) == match lookup(map0, "context"@) {
                Some(YamlView::Mapping(m)) => m,
                _ => Seq::<(YamlView, YamlView)>::empty(),
            });
            map_insert(&mut inner, owned("namespace"), YamlValue::Str(owned(ns)));
            proof {
                lemma_mapping_view(inner);
            }
            map_insert(&mut map, owned("context"), YamlValue::Mapping(inner));
            proof {
                lemma_mapping_view(map);
            }
            let name = cfg.contexts[i].name.clone();
            let ghost old_contexts = cfg.contexts@;
            cfg.contexts.set(i, NamedItem { name, rest: YamlValue::Mapping(map) });
            assert(items_view(cfg.contexts@) =~= items_view(old_contexts).update(
                i as int,
                NamedItemView {
                    name: old_contexts[i as int].name@,
                    rest: with_namespace(old_contexts[i as int].rest@, ns@),
                },
            ));
            Ok(())
        },
        None => Err(K8pkError::ContextNotFound(owned(context_name))),
    }
}

/// Whether a cluster's YAML turns TLS verification off.
pub open spec fn cluster_insecure(rest: YamlView) -> bool {
    match rest {
        YamlView::Mapping(m) => match lookup(m, "cluster"@) {
            Some(YamlView::Mapping(c)) => lookup(c, "insecure-skip-tls-verify"@) == Some(YamlView::Bool(true)),
            _ => false,
        },
        _ => false,
    }
}

/// The cluster (the first of its name) that context `name` refers to.
pub open spec fn context_cluster(c: KubeConfigView, name: Seq<char>) -> Option<NamedItemView> {
    match find_named(c.contexts, name) {
        Some(i) => match context_refs(c.contexts[i].rest) {
            Ok((cl, _)) => match find_named(c.clusters, cl) {
                Some(j) => Some(c.clusters[j]),
                None => None,
            },
            Err(_) => None,
        },
        None => None,
    }
}

fn cluster_of_context<'a>(cfg: &'a KubeConfig, name: &str) -> (r: Option<&'a NamedItem>)
    ensures
        match r {
            Some(item) => context_cluster(cfg@, name@) == Some(item@),
            None => context_cluster(cfg@, name@) is None,
        },
{
    match cfg.find_context(name) {
        Some(ctx) => match extract_context_refs(&ctx.rest) {
            Ok((cl, _)) => cfg.find_cluster(cl.as_str()),
            Err(_) => None,
        },
        None => None,
    }
}

/// The server of the cluster that context `name` refers to.
pub fn server_for_context(cfg: &KubeConfig, name: &str) -> (r: Option<String>)
    ensures
        opt_str(r) == match context_cluster(cfg@, name@) {
            Some(cl) => server_url(cl.rest),
            None => None,
        },
{
    match cluster_of_context(cfg, name) {
        Some(cl) => extract_server_url_from_cluster(&cl.rest),
        None => None,
    }
}

/// Whether the cluster that context `name` refers to has TLS verification off.
pub fn cluster_insecure_for_context(cfg: &KubeConfig, name: &str) -> (r: bool)
    ensures
        r == match context_cluster(cfg@, name@) {
            Some(cl) => cluster_insecure(cl.rest),
            None => false,
        },
{
    match cluster_of_context(cfg, name) {
        Some(cl) => match &cl.rest {
            YamlValue::Mapping(m) => {
                proof {
                    lemma_mapping_view(*m);
                }
                match map_get(m, "cluster") {
                    Some(YamlValue::Mapping(inner)) => {
                        proof {
                            lemma_mapping_view(*inner);
                        }
                        match map_get(inner, "insecure-skip-tls-verify") {
                            Some(YamlValue::Bool(b)) => *b,
                            _ => false,
                        }
                    },
                    _ => false,
                }
            },
            _ => false,
        },
        None => false,
    }
}

/// A cluster's YAML with TLS verification off: `insecure-skip-tls-verify:
/// true` under its `cluster` mapping, which keeps no certificate authority
/// (kubectl refuses one together with the flag).
pub open spec fn insecure_cluster(rest: YamlView) -> YamlView {
    let map = match rest {
        YamlView::Mapping(m) => m,
        _ => Seq::empty(),
    };
    let inner = match lookup(map, "cluster"@) {
        Some(YamlView::Mapping(m)) => m,
        _ => Seq::empty(),
    };
    YamlView::Mapping(
        insert_entry(
            swap_remove_entry(map, "cluster"@),
            "cluster"@,
            YamlView::Mapping(
                insert_entry(
                    swap_remove_entry(swap_remove_entry(inner, "certificate-authority"@), "certificate-authority-data"@),
                    "insecure-skip-tls-verify"@,
                    YamlView::Bool(true),
                ),
            ),
        ),
    )
}

/// A cluster with TLS verification off.
pub open spec fn insecure_item(v: NamedItemView) -> NamedItemView {
    NamedItemView { name: v.name, rest: insecure_cluster(v.rest) }
}

/// A kubeconfig with TLS verification off for every cluster.
pub open spec fn insecure_clusters(c: KubeConfigView) -> KubeConfigView {
    KubeConfigView { clusters: c.clusters.map_values(|v: NamedItemView| insecure_item(v)), ..c }
}

fn insecure_rest(rest: &YamlValue) -> (r: YamlValue)
    ensures
        r@ == insecure_cluster(rest@),
{
    let rest_copy = copy_value(rest);
    let mut map: Vec<YamlEntry> = match rest_copy {
        YamlValue::Mapping(m) => {
            proof {
                lemma_mapping_view(m);
            }
            m
        },
        _ => Vec::new(),
    };
    let ghost map0 = entries_view(map@);
    assert(map0 == match rest@ {
        YamlView::Mapping(m) => m,
        _ => Seq::<(YamlView, YamlView)>::empty(),
    });
    let removed = map_swap_remove(&mut map, "cluster");
    let mut inner: Vec<YamlEntry> = match removed {
        Some(YamlValue::Mapping(m)) => {
            proof {
                lemma_mapping_view(m);
            }
            m
        },
        _ => Vec::new(),
    };
    assert(entries_view(inner@) == match lookup(map0, "cluster"@) {
        Some(YamlView::Mapping(m)) => m,
        _ => Seq::<(YamlView, YamlView)>::empty(),
    });
    let _ = map_swap_remove(&mut inner, "certificate-authority");
    let _ = map_swap_remove(&mut inner, "certificate-authority-data");
    map_insert(&mut inner, owned("insecure-skip-tls-verify"), YamlValue::Bool(true));
    proof {
        lemma_mapping_view(inner);
    }
    map_insert(&mut map, owned("cluster"), YamlValue::Mapping(inner));
    proof {
        lemma_mapping_view(map);
    }
    YamlValue::Mapping(map)
}

/// Turns TLS verification off for every cluster of a kubeconfig (see
/// `insecure_cluster`); nothing else changes.
pub fn set_cluster_insecure(cfg: &mut KubeConfig)
    ensures
        final(cfg)@ == insecure_clusters(old(cfg)@),
{
    let ghost c0 = items_view(cfg.clusters@);
    let mut out: Vec<NamedItem> = Vec::new();
    let mut i: usize = 0;
    while i < cfg.clusters.len()
        invariant
            i <= cfg.clusters@.len(),
            c0 == items_view(cfg.clusters@),
            out@.len() == i,
            forall|j: int| 0 <= j < i ==> #[trigger] out@[j]@ == insecure_item(c0[j]),
        decreases cfg.clusters.len() - i,
    {
        let item = NamedItem { name: cfg.clusters[i].name.clone(), rest: insecure_rest(&cfg.clusters[i].rest) };
        out.push(item);
        i = i + 1;
    }
    cfg.clusters = out;
    assert(items_view(cfg.clusters@) =~= c0.map_values(|v: NamedItemView| insecure_item(v)));
}

/// What pruning a kubeconfig to one context gives: the context with its
/// cluster and user, or the error that stops it.
pub open spec fn pruned(c: KubeConfigView, name: Seq<char>) -> Result<KubeConfigView, (ErrorKind, Seq<char>)> {
    match find_named(c.contexts, name) {
        None => Err((ErrorKind::ContextNotFound, name)),
        Some(i) => match context_refs(c.contexts[i].rest) {
            Err(m) => Err((ErrorKind::InvalidKubeconfig, m)),
            Ok((cl, u)) => match find_named(c.clusters, cl) {
                None => Err((ErrorKind::ClusterNotFound, cl)),
                Some(j) => match find_named(c.users, u) {
                    None => Err((ErrorKind::UserNotFound, u)),
                    Some(k) => Ok(
                        KubeConfigView {
                            api_version: Some("v1"@),
                            kind: Some("Config"@),
                            preferences: Some(YamlView::Mapping(Seq::empty())),
                            clusters: seq![c.clusters[j]],
                            current_context: Some(name),
                            contexts: seq![c.contexts[i]],
                            users: seq![c.users[k]],
                            extensions: None,
                        },
                    ),
                },
            },
        },
    }
}

/// Prune kubeconfig to only include a specific context.
pub fn prune_to_context(cfg: &KubeConfig, name: &str) -> (r: Result<KubeConfig, K8pkError>)
    ensures
        match r {
            Ok(p) => pruned(cfg@, name@) == Ok::<KubeConfigView, (ErrorKind, Seq<char>)>(p@),
            Err(e) => pruned(cfg@, name@) == Err::<KubeConfigView, (ErrorKind, Seq<char>)>((e.kind(), e.detail())),
        },
{
    let ctx = match cfg.find_context(name) {
        Some(c) => c,
        None => {
            return Err(K8pkError::ContextNotFound(owned(name)));
        },
    };
    let (cluster_name, user_name) = match extract_context_refs(&ctx.rest) {
        Ok(p) => p,
        Err(e) => {
            return Err(e);
        },
    };
    let cluster = match cfg.find_cluster(cluster_name.as_str()) {
        Some(c) => c,
        None => {
            return Err(K8pkError::ClusterNotFound(cluster_name));
        },
    };
    let user = match cfg.find_user(user_name.as_str()) {
        Some(u) => u,
        None => {
            return Err(K8pkError::UserNotFound(user_name));
        },
    };
    let mut clusters: Vec<NamedItem> = Vec::new();
    clusters.push(copy_item(cluster));
    let mut contexts: Vec<NamedItem> = Vec::new();
    contexts.push(copy_item(ctx));
    let mut users: Vec<NamedItem> = Vec::new();
    users.push(copy_item(user));
    let p = KubeConfig {
        api_version: Some(owned("v1")),
        kind: Some(owned("Config")),
        preferences: Some(empty_mapping()),
        clusters,
        current_context: Some(owned(name)),
        contexts,
        users,
        extensions: None,
    };
    assert(p@.clusters =~= seq![cluster@]);
    assert(p@.contexts =~= seq![ctx@]);
    assert(p@.users =~= seq![user@]);
    Ok(p)
}

// ---------------------------------------------------------------------------
// Naming rules
// ---------------------------------------------------------------------------

/// Characters that cannot stand in a file name.
pub open spec fn is_unsafe_file_char(c: char) -> bool {
    c == '/' || c == '\\' || c == ':' || c == '*' || c == '?' || c == '"' || c == '<' || c == '>'
        || c == '|'
}

/// `s` with every character that cannot stand in a file name replaced by `_`.
pub open spec fn sanitized(s: Seq<char>) -> Seq<char> {
    Seq::new(
        s.len(),
        |i: int|
            if is_unsafe_file_char(s[i]) {
                '_'
            } else {
                s[i]
            },
    )
}

/// Sanitize a string for use in filenames.
pub fn sanitize_filename(s: &str) -> (r: String)
    ensures
        r@ == sanitized(s@),
{
    let v = chars_of(s);
    let mut out: Vec<char> = Vec::new();
    let mut i: usize = 0;
    while i < v.len()
        invariant
            i <= v.len(),
            v@ == s@,
            out@.len() == i,
            forall|j: int| 0 <= j < i ==> #[trigger] out@[j] == sanitized(s@)[j],
        decreases v.len() - i,
    {
        let c = v[i];
        let m = if c == '/' || c == '\\' || c == ':' || c == '*' || c == '?' || c == '"' || c
            == '<' || c == '>' || c == '|' {
            '_'
        } else {
            c
        };
        out.push(m);
        i = i + 1;
    }
    assert(out@ =~= sanitized(s@));
    string_of(&out)
}

/// The cluster type that a context name or server URL suggests.
pub open spec fn cluster_type(name: Seq<char>, url: Option<Seq<char>>) -> Seq<char> {
    if has_prefix(name, "arn:aws:eks:"@) {
        "eks"@
    } else if has_prefix(name, "gke_"@) {
        "gke"@
    } else if contains_seq(name, "/api."@) && contains_seq(name, ":6443"@) {
        "ocp"@
    } else if has_prefix(name, "aks-"@) || contains_seq(name, "azure"@) {
        "aks"@
    } else {
        match url {
            Some(u) => if contains_seq(u, ".eks.amazonaws.com"@) {
                "eks"@
            } else if contains_seq(u, ".container.googleapis.com"@) || contains_seq(u, "gke.io"@) {
                "gke"@
            } else if contains_seq(u, ":6443"@) || contains_seq(u, "openshift"@) || contains_seq(
                u,
                "ocp"@,
            ) {
                "ocp"@
            } else if contains_seq(u, ".azmk8s.io"@) || contains_seq(u, "azure"@) {
                "aks"@
            } else {
                "k8s"@
            },
            None => "k8s"@,
        }
    }
}

/// Detect cluster type from context name or server URL.
pub fn detect_cluster_type(context_name: &str, server_url: Option<&str>) -> (r: &'static str)
    ensures
        r@ == cluster_type(
            context_name@,
            match server_url {
                Some(u) => Some(u@),
                None => None,
            },
        ),
{
    if str_starts_with(context_name, "arn:aws:eks:") {
        return "eks";
    }
    if str_starts_with(context_name, "gke_") {
        return "gke";
    }
    if str_contains(context_name, "/api.") && str_contains(context_name, ":6443") {
        return "ocp";
    }
    if str_starts_with(context_name, "aks-") || str_contains(context_name, "azure") {
        return "aks";
    }
    if let Some(url) = server_url {
        if str_contains(url, ".eks.amazonaws.com") {
            return "eks";
        }
        if str_contains(url, ".container.googleapis.com") || str_contains(url, "gke.io") {
            return "gke";
        }
        if str_contains(url, ":6443") || str_contains(url, "openshift") || str_contains(url, "ocp") {
            return "ocp";
        }
        if str_contains(url, ".azmk8s.io") || str_contains(url, "azure") {
            return "aks";
        }
    }
    "k8s"
}

/// The base cluster name of a context name: namespace suffixes removed. An
/// EKS ARN (`...:cluster/NAME[/NAMESPACE]`) gives its cluster name; any other
/// `NAME/NAMESPACE` gives the part before the first `/`.
pub open spec fn base_cluster_name(name: Seq<char>, url: Option<Seq<char>>) -> Seq<char> {
    let t = cluster_type(name, url);
    let slash = split_seq(name, "/"@);
    if t == "ocp"@ {
        if slash.len() >= 2 {
            slash[0] + "/"@ + slash[1]
        } else {
            name
        }
    } else if t == "eks"@ {
        if contains_seq(name, ":cluster/"@) {
            split_seq(split_seq(name, "cluster/"@).last(), "/"@)[0]
        } else if contains_seq(name, "/"@) {
            slash[0]
        } else {
            name
        }
    } else if t == "gke"@ {
        let u = split_seq(name, "_"@);
        if u.len() >= 4 {
            join_seq(u.take(4), "_"@)
        } else {
            name
        }
    } else if contains_seq(name, "/"@) {
        slash[0]
    } else {
        name
    }
}

/// Extract base cluster name from a context name (removes namespace suffixes).
/// This helps group namespace-specific contexts under their base cluster.
pub fn extract_base_cluster_name(context_name: &str, server_url: Option<&str>) -> (r: String)
    ensures
        r@ == base_cluster_name(
            context_name@,
            match server_url {
                Some(u) => Some(u@),
                None => None,
            },
        ),
{
    proof {
        reveal_strlit("/");
        reveal_strlit("_");
        reveal_strlit("cluster/");
        reveal_strlit(":cluster/");
        reveal_strlit("ocp");
        reveal_strlit("eks");
        reveal_strlit("gke");
        lemma_split_nonempty(context_name@, "/"@);
        lemma_split_nonempty(context_name@, "cluster/"@);
    }
    let t = detect_cluster_type(context_name, server_url);
    let slash = str_split(context_name, "/");
    if str_eq(t, "ocp") {
        if slash.len() >= 2 {
            let a = string_of(&slash[0]);
            let b = string_of(&slash[1]);
            let ab = concat(a.as_str(), "/");
            return concat(ab.as_str(), b.as_str());
        }
    } else if str_eq(t, "eks") {
        if str_contains(context_name, ":cluster/") {
            let pieces = str_split(context_name, "cluster/");
            let last = string_of(&pieces[pieces.len() - 1]);
            proof {
                lemma_split_nonempty(last@, "/"@);
            }
            let sub = str_split(last.as_str(), "/");
            return string_of(&sub[0]);
        } else if str_contains(context_name, "/") {
            return string_of(&slash[0]);
        }
    } else if str_eq(t, "gke") {
        let u = str_split(context_name, "_");
        if u.len() >= 4 {
            let mut first4: Vec<Vec<char>> = Vec::new();
            let mut i: usize = 0;
            while i < 4
                invariant
                    u@.len() >= 4,
                    i <= 4,
                    first4@.len() == i,
                    forall|j: int| 0 <= j < i ==> (#[trigger] first4@[j])@ == u@[j]@,
                decreases 4 - i,
            {
                first4.push(u[i].clone());
                i = i + 1;
            }
            let sep = chars_of("_");
            let j = chars_join(&first4, &sep);
            assert(first4@.map_values(|v: Vec<char>| v@) =~= u@.map_values(|v: Vec<char>| v@).take(4));
            return string_of(&j);
        }
    } else if str_contains(context_name, "/") {
        return string_of(&slash[0]);
    }
    owned(context_name)
}

/// A friendly display name for a context of the given cluster type.
pub open spec fn friendly_name(name: Seq<char>, cluster_type: Seq<char>) -> Seq<char> {
    if cluster_type == "eks"@ {
        split_seq(name, "cluster/"@).last()
    } else if cluster_type == "gke"@ {
        let u = split_seq(name, "_"@);
        if u.len() >= 4 {
            join_seq(u.skip(3), "_"@)
        } else {
            name
        }
    } else if cluster_type == "ocp"@ {
        let p = split_seq(name, "/"@);
        if p.len() >= 2 {
            p[0] + "@"@ + split_seq(trim_start_seq(trim_start_seq(p[1], "api."@), "api-"@), ":"@)[0]
        } else {
            name
        }
    } else {
        name
    }
}

/// Generate a friendly name for a context.
pub fn friendly_context_name(context_name: &str, cluster_type: &str) -> (r: String)
    ensures
        r@ == friendly_name(context_name@, cluster_type@),
{
    proof {
        reveal_strlit("/");
        reveal_strlit("_");
        reveal_strlit(":");
        reveal_strlit("api.");
        reveal_strlit("api-");
        reveal_strlit("cluster/");
        lemma_split_nonempty(context_name@, "cluster/"@);
    }
    if str_eq(cluster_type, "eks") {
        let pieces = str_split(context_name, "cluster/");
        return string_of(&pieces[pieces.len() - 1]);
    } else if str_eq(cluster_type, "gke") {
        let u = str_split(context_name, "_");
        if u.len() >= 4 {
            let mut rest: Vec<Vec<char>> = Vec::new();
            let mut i: usize = 3;
            while i < u.len()
                invariant
                    u@.len() >= 4,
                    3 <= i <= u@.len(),
                    rest@.len() == i - 3,
                    forall|j: int| 0 <= j < i - 3 ==> (#[trigger] rest@[j])@ == u@[j + 3]@,
                decreases u.len() - i,
            {
                rest.push(u[i].clone());
                i = i + 1;
            }
            let sep = chars_of("_");
            let j = chars_join(&rest, &sep);
            assert(rest@.map_values(|v: Vec<char>| v@) =~= u@.map_values(|v: Vec<char>| v@).skip(3));
            return string_of(&j);
        }
    } else if str_eq(cluster_type, "ocp") {
        let p = str_split(context_name, "/");
        if p.len() >= 2 {
            let api_dot = chars_of("api.");
            let api_dash = chars_of("api-");
            let s1 = chars_trim_start_seq(&p[1], &api_dot);
            let s2 = chars_trim_start_seq(&s1, &api_dash);
            let server = string_of(&s2);
            proof {
                lemma_split_nonempty(server@, ":"@);
            }
            let host_parts = str_split(server.as_str(), ":");
            let project = string_of(&p[0]);
            let host = string_of(&host_parts[0]);
            let pa = concat(project.as_str(), "@");
            return concat(pa.as_str(), host.as_str());
        }
    }
    owned(context_name)
}

/// Join paths for the KUBECONFIG environment variable.
pub fn join_paths_for_env(paths: &[String]) -> (r: Option<String>)
    ensures
        match r {
            None => paths@.len() == 0,
            Some(s) => paths@.len() > 0 && s@ == join_seq(views(paths@), ":"@),
        },
{
    if paths.len() == 0 {
        return None;
    }
    let mut parts: Vec<Vec<char>> = Vec::new();
    let mut i: usize = 0;
    while i < paths.len()
        invariant
            i <= paths.len(),
            parts@.len() == i,
            forall|j: int| 0 <= j < i ==> (#[trigger] parts@[j])@ == paths@[j]@,
        decreases paths.len() - i,
    {
        parts.push(chars_of(paths[i].as_str()));
        i = i + 1;
    }
    assert(parts@.map_values(|v: Vec<char>| v@) =~= views(paths@));
    let sep = chars_of(":");
    let j = chars_join(&parts, &sep);
    Some(string_of(&j))
}

// ---------------------------------------------------------------------------
// Loading several kubeconfigs
// ---------------------------------------------------------------------------

/// Several kubeconfigs loaded one after the other: items concatenated, the
/// first current context and top-level defaults kept.
pub open spec fn merged(cfgs: Seq<KubeConfigView>) -> KubeConfigView
    decreases cfgs.len(),
{
    if cfgs.len() == 0 {
        empty_view()
    } else {
        let m = merged(cfgs.drop_last());
        let c = cfgs.last();
        KubeConfigView {
            api_version: if m.api_version is None {
                c.api_version
            } else {
                m.api_version
            },
            kind: if m.kind is None {
                c.kind
            } else {
                m.kind
            },
            preferences: if m.preferences is None {
                c.preferences
            } else {
                m.preferences
            },
            clusters: m.clusters + c.clusters,
            current_context: if m.current_context is None {
                c.current_context
            } else {
                m.current_context
            },
            contexts: m.contexts + c.contexts,
            users: m.users + c.users,
            extensions: if m.extensions is None {
                c.extensions
            } else {
                m.extensions
            },
        }
    }
}

/// The view of each kubeconfig.
pub open spec fn configs_view(cfgs: Seq<KubeConfig>) -> Seq<KubeConfigView> {
    cfgs.map_values(|c: KubeConfig| c@)
}

/// Appends copies of `src` to `dst`.
pub fn append_items(dst: &mut Vec<NamedItem>, src: &Vec<NamedItem>)
    ensures
        items_view(final(dst)@) == items_view(old(dst)@) + items_view(src@),
{
    let ghost start = items_view(dst@);
    let mut i: usize = 0;
    while i < src.len()
        invariant
            i <= src@.len(),
            items_view(dst@) == start + items_view(src@).take(i as int),
        decreases src.len() - i,
    {
        let ghost before = dst@;
        dst.push(copy_item(&src[i]));
        proof {
            assert(items_view(dst@) =~= items_view(before).push(src@[i as int]@));
            assert(items_view(src@).take(i + 1) =~= items_view(src@).take(i as int).push(src@[i as int]@));
        }
        i = i + 1;
    }
    assert(items_view(src@).take(src.len() as int) =~= items_view(src@));
}

/// Merges kubeconfigs in the order they were loaded (the folding step of
/// loading several files): items are concatenated, the first current
/// context wins, and top-level fields are taken from the first file that has them.
pub fn merge_loaded(cfgs: &[KubeConfig]) -> (r: KubeConfig)
    ensures
        r@ == merged(configs_view(cfgs@)),
{
    let ghost cv = configs_view(cfgs@);
    let mut m = KubeConfig::default();
    let mut i: usize = 0;
    while i < cfgs.len()
        invariant
            i <= cfgs@.len(),
            cv == configs_view(cfgs@),
            m@ == merged(cv.take(i as int)),
        decreases cfgs.len() - i,
    {
        let c = &cfgs[i];
        proof {
            assert(cv.take(i + 1).drop_last() =~= cv.take(i as int));
            assert(cv.take(i + 1).last() == c@);
        }
        if m.current_context.is_none() {
            m.current_context = copy_opt_str(&c.current_context);
        }
        append_items(&mut m.clusters, &c.clusters);
        append_items(&mut m.contexts, &c.contexts);
        append_items(&mut m.users, &c.users);
        if m.api_version.is_none() {
            m.api_version = copy_opt_str(&c.api_version);
        }
        if m.kind.is_none() {
            m.kind = copy_opt_str(&c.kind);
        }
        if m.preferences.is_none() {
            m.preferences = copy_opt_yaml(&c.preferences);
        }
        if m.extensions.is_none() {
            m.extensions = copy_opt_yaml(&c.extensions);
        }
        i = i + 1;
    }
    assert(cv.take(cfgs.len() as int) =~= cv);
    m
}

/// Where each context comes from: the first file that defines it.
pub open spec fn add_sources(m: Map<Seq<char>, Seq<char>>, ctx_names: Seq<Seq<char>>, path: Seq<char>) -> Map<Seq<char>, Seq<char>>
    decreases ctx_names.len(),
{
    if ctx_names.len() == 0 {
        m
    } else {
        let m2 = add_sources(m, ctx_names.drop_last(), path);
        if m2.contains_key(ctx_names.last()) {
            m2
        } else {
            m2.insert(ctx_names.last(), path)
        }
    }
}

/// The file that first defines each context, over the files in order.
pub open spec fn context_sources(files: Seq<(Seq<char>, KubeConfigView)>) -> Map<Seq<char>, Seq<char>>
    decreases files.len(),
{
    if files.len() == 0 {
        Map::empty()
    } else {
        add_sources(context_sources(files.drop_last()), names(files.last().1.contexts), files.last().0)
    }
}

/// The view of each (path, kubeconfig) pair.
pub open spec fn files_view(files: Seq<(String, KubeConfig)>) -> Seq<(Seq<char>, KubeConfigView)> {
    files.map_values(|f: (String, KubeConfig)| (f.0@, f.1@))
}

/// List contexts with their source file paths (the first file that defines a context wins).
pub fn list_contexts_with_paths(files: &[(String, KubeConfig)]) -> (r: StrMap<String>)
    ensures
        r.wf(),
        r@ == context_sources(files_view(files@)),
{
    let ghost fv = files_view(files@);
    let mut r: StrMap<String> = StrMap::new();
    let mut i: usize = 0;
    while i < files.len()
        invariant
            i <= files@.len(),
            fv == files_view(files@),
            r.wf(),
            r@ == context_sources(fv.take(i as int)),
        decreases files.len() - i,
    {
        let (path, cfg) = &files[i];
        let ghost base = r@;
        let ghost ns = names(cfg@.contexts);
        let mut j: usize = 0;
        while j < cfg.contexts.len()
            invariant
                j <= cfg.contexts@.len(),
                ns == names(cfg@.contexts),
                r.wf(),
                r@ == add_sources(base, ns.take(j as int), path@),
            decreases cfg.contexts.len() - j,
        {
            proof {
                assert(ns.take(j + 1).drop_last() =~= ns.take(j as int));
                assert(ns.take(j + 1).last() == cfg.contexts@[j as int].name@);
            }
            if !r.contains_key(cfg.contexts[j].name.as_str()) {
                r.insert(cfg.contexts[j].name.clone(), path.clone());
            }
            j = j + 1;
        }
        proof {
            assert(ns.take(cfg.contexts.len() as int) =~= ns);
            assert(fv.take(i + 1).drop_last() =~= fv.take(i as int));
            assert(fv.take(i + 1).last() == (path@, cfg@));
        }
        i = i + 1;
    }
    assert(fv.take(files.len() as int) =~= fv);
    r
}

/// A file name that directory scanning takes for a kubeconfig.
pub open spec fn is_kubeconfig_name(name: Seq<char>) -> bool {
    name == "config"@ || crate::text::has_suffix(name, ".yaml"@) || crate::text::has_suffix(
        name,
        ".yml"@,
    )
}

/// Whether directory scanning takes a file of this name as a kubeconfig.
pub fn is_kubeconfig_file_name(name: &str) -> (r: bool)
    ensures
        r == is_kubeconfig_name(name@),
{
    str_eq(name, "config") || crate::text::str_ends_with(name, ".yaml")
        || crate::text::str_ends_with(name, ".yml")
}

// ---------------------------------------------------------------------------
// Which kubeconfig files to load
// ---------------------------------------------------------------------------

/// Whether two paths are equal as std compares them (component by component).
pub uninterp spec fn same_path(a: Seq<char>, b: Seq<char>) -> bool;

/// Compares two paths; calls std's `PartialEq for Path`, whose result is named `same_path`.
#[verifier::external_body]
pub(crate) fn path_eq(a: &str, b: &str) -> (r: bool)
    ensures
        r == same_path(a@, b@),
{
    std::path::Path::new(a) == std::path::Path::new(b)
}

/// `acc` already holds a path equal to `p`.
pub open spec fn holds_path(acc: Seq<Seq<char>>, p: Seq<char>) -> bool {
    exists|i: int| 0 <= i < acc.len() && same_path(acc[i], p)
}

/// `xs` appended to `acc` in order, each path only when no equal one is already there.
pub open spec fn add_unique(acc: Seq<Seq<char>>, xs: Seq<Seq<char>>) -> Seq<Seq<char>>
    decreases xs.len(),
{
    if xs.len() == 0 {
        acc
    } else {
        let a = add_unique(acc, xs.drop_last());
        if holds_path(a, xs.last()) {
            a
        } else {
            a.push(xs.last())
        }
    }
}

/// The non-empty entries of a `KUBECONFIG` value.
pub open spec fn env_paths(env: Option<Seq<char>>) -> Seq<Seq<char>> {
    match env {
        Some(e) => split_seq(e, ":"@).filter(|p: Seq<char>| p.len() > 0),
        None => Seq::empty(),
    }
}

/// The kubeconfig files to load, by priority: an explicit path alone; else
/// `$KUBECONFIG` entries, then files found in the given directories, then files
/// matched by the config patterns, each path once; else the default file when it exists.
pub open spec fn resolved_paths(
    override_path: Option<Seq<char>>,
    env: Option<Seq<char>>,
    scanned: Seq<Seq<char>>,
    from_config: Seq<Seq<char>>,
    default_if_exists: Option<Seq<char>>,
) -> Seq<Seq<char>> {
    match override_path {
        Some(p) => seq![p],
        None => {
            let a = add_unique(add_unique(add_unique(Seq::empty(), env_paths(env)), scanned), from_config);
            if a.len() == 0 {
                match default_if_exists {
                    Some(d) => seq![d],
                    None => Seq::empty(),
                }
            } else {
                a
            }
        },
    }
}

fn holds_path_exec(acc: &Vec<String>, p: &str) -> (r: bool)
    ensures
        r == holds_path(views(acc@), p@),
{
    let mut i: usize = 0;
    while i < acc.len()
        invariant
            i <= acc@.len(),
            forall|j: int| 0 <= j < i ==> !same_path(acc@[j]@, p@),
        decreases acc.len() - i,
    {
        if path_eq(acc[i].as_str(), p) {
            assert(views(acc@)[i as int] == acc@[i as int]@);
            return true;
        }
        i = i + 1;
    }
    proof {
        if holds_path(views(acc@), p@) {
            let j = choose|j: int| 0 <= j < views(acc@).len() && same_path(views(acc@)[j], p@);
            assert(views(acc@)[j] == acc@[j]@);
        }
    }
    false
}

fn add_unique_exec(acc: &mut Vec<String>, xs: &Vec<String>)
    ensures
        views(final(acc)@) == add_unique(views(old(acc)@), views(xs@)),
{
    let ghost start = views(acc@);
    let ghost xv = views(xs@);
    let mut i: usize = 0;
    while i < xs.len()
        invariant
            i <= xs@.len(),
            xv == views(xs@),
            views(acc@) == add_unique(start, xv.take(i as int)),
        decreases xs.len() - i,
    {
        proof {
            assert(xv.take(i + 1).drop_last() =~= xv.take(i as int));
            assert(xv.take(i + 1).last() == xs@[i as int]@);
        }
        if !holds_path_exec(acc, xs[i].as_str()) {
            let ghost before = acc@;
            acc.push(xs[i].clone());
            assert(views(acc@) =~= views(before).push(xs@[i as int]@));
        }
        i = i + 1;
    }
    assert(xv.take(xs.len() as int) =~= xv);
}

/// Resolve kubeconfig paths from the sources in priority order; `scanned` are
/// the files found in the given directories, `from_config` those the config
/// patterns matched, and `default_if_exists` the default file when it exists.
pub fn resolve_paths(
    override_path: Option<&str>,
    kubeconfig_env: Option<&str>,
    scanned: &Vec<String>,
    from_config: &Vec<String>,
    default_if_exists: Option<&str>,
) -> (r: Vec<String>)
    ensures
        views(r@) == resolved_paths(
            match override_path {
                Some(p) => Some(p@),
                None => None,
            },
            match kubeconfig_env {
                Some(e) => Some(e@),
                None => None,
            },
            views(scanned@),
            views(from_config@),
            match default_if_exists {
                Some(d) => Some(d@),
                None => None,
            },
        ),
{
    let mut paths: Vec<String> = Vec::new();
    if let Some(p) = override_path {
        paths.push(owned(p));
        assert(views(paths@) =~= seq![p@]);
        return paths;
    }
    let mut env_list: Vec<String> = Vec::new();
    if let Some(kc) = kubeconfig_env {
        proof {
            reveal_strlit(":");
        }
        let parts = str_split(kc, ":");
        let ghost pv = parts@.map_values(|v: Vec<char>| v@);
        let mut i: usize = 0;
        while i < parts.len()
            invariant
                i <= parts@.len(),
                pv == parts@.map_values(|v: Vec<char>| v@),
                views(env_list@) == pv.take(i as int).filter(|p: Seq<char>| p.len() > 0),
            decreases parts.len() - i,
        {
            proof {
                assert(pv.take(i + 1).drop_last() =~= pv.take(i as int));
                reveal(Seq::filter);
            }
            if parts[i].len() > 0 {
                let ghost before = env_list@;
                env_list.push(string_of(&parts[i]));
                assert(views(env_list@) =~= views(before).push(parts@[i as int]@));
            }
            i = i + 1;
        }
        assert(pv.take(parts.len() as int) =~= pv);
    } else {
        assert(views(env_list@) =~= Seq::<Seq<char>>::empty());
    }
    assert(views(paths@) =~= Seq::<Seq<char>>::empty());
    add_unique_exec(&mut paths, &env_list);
    add_unique_exec(&mut paths, scanned);
    add_unique_exec(&mut paths, from_config);
    if paths.len() == 0 {
        if let Some(d) = default_if_exists {
            paths.push(owned(d));
            assert(views(paths@) =~= seq![d@]);
        }
    }
    paths
}

} // verus!

//! What the interactive pickers offer: the contexts (each once, the current
//! one marked), or, in clusters-only mode, the clusters the contexts belong to
//! and which context and namespace picking a cluster gives.

use vstd::prelude::*;
use crate::error::K8pkError;
use crate::kubeconfig::{
    base_cluster_name, context_namespace, copy_item, extract_base_cluster_name, extract_context_namespace,
    extract_context_refs, extract_server_url_from_cluster, find_item, find_named, items_view, names, opt_str,
    KubeConfig, KubeConfigView, NamedItem, NamedItemView,
};
use crate::kubeconfig_ops::contains_str;
use crate::login_config::unique_by_name;
use crate::organize::{context_server, names_sorted};
use crate::text::{concat, owned, sort_strings, str_eq, views};

verus! {

/// A choice's label: the name, marked with ` *` when it is the current one.
pub open spec fn marked(name: Seq<char>, current: bool) -> Seq<char> {
    if current {
        name + " *"@
    } else {
        name
    }
}

/// The labels of the context picker: each context name once, in order, the
/// current context marked.
pub open spec fn context_labels(c: KubeConfigView) -> Seq<Seq<char>> {
    names(unique_by_name(c.contexts)).map_values(|n: Seq<char>| marked(n, c.current_context == Some(n)))
}

/// The contexts the pickers offer: each name once, its first occurrence.
pub fn picker_contexts(cfg: &KubeConfig) -> (r: Vec<NamedItem>)
    ensures
        items_view(r@) == unique_by_name(cfg@.contexts),
{
    let ghost ctxs = cfg@.contexts;
    let mut out: Vec<NamedItem> = Vec::new();
    let mut i: usize = 0;
    while i < cfg.contexts.len()
        invariant
            i <= cfg.contexts@.len(),
            ctxs == cfg@.contexts,
            ctxs == items_view(cfg.contexts@),
            items_view(out@) == unique_by_name(ctxs.take(i as int)),
        decreases cfg.contexts.len() - i,
    {
        proof {
            assert(ctxs.take(i + 1).drop_last() =~= ctxs.take(i as int));
            assert(ctxs.take(i + 1).last() == ctxs[i as int]);
        }
        if find_item(&out, cfg.contexts[i].name.as_str()).is_none() {
            let item = copy_item(&cfg.contexts[i]);
            let ghost before = out@;
            out.push(item);
            assert(items_view(out@) =~= items_view(before).push(ctxs[i as int]));
        }
        i = i + 1;
    }
    assert(ctxs.take(ctxs.len() as int) =~= ctxs);
    out
}

/// The labels of the context picker, or `NoContexts` when there is none.
pub fn context_choices(cfg: &KubeConfig) -> (r: Result<Vec<String>, K8pkError>)
    ensures
        match r {
            Ok(v) => views(v@) == context_labels(cfg@) && v@.len() > 0,
            Err(e) => e is NoContexts && context_labels(cfg@).len() == 0,
        },
{
    let items = picker_contexts(cfg);
    let ghost u = items_view(items@);
    let mut out: Vec<String> = Vec::new();
    let mut i: usize = 0;
    while i < items.len()
        invariant
            i <= items@.len(),
            u == items_view(items@),
            u == unique_by_name(cfg@.contexts),
            views(out@) == names(u.take(i as int)).map_values(
                |n: Seq<char>| marked(n, cfg@.current_context == Some(n)),
            ),
        decreases items.len() - i,
    {
        let name = items[i].name.as_str();
        let current = match &cfg.current_context {
            Some(c) => str_eq(c.as_str(), name),
            None => false,
        };
        let label = if current {
            concat(name, " *")
        } else {
            owned(name)
        };
        let ghost before = views(out@);
        out.push(label);
        proof {
            assert(u.take(i + 1) =~= u.take(i as int).push(u[i as int]));
            assert(names(u.take(i + 1)) =~= names(u.take(i as int)).push(u[i as int].name));
            assert(views(out@) =~= before.push(label@));
        }
        i = i + 1;
    }
    assert(u.take(u.len() as int) =~= u);
    assert(names(u).len() == u.len());
    if out.len() == 0 {
        Err(K8pkError::NoContexts)
    } else {
        Ok(out)
    }
}

/// The name a label stands for: the label without a trailing ` *`.
pub open spec fn unmarked(label: Seq<char>) -> Seq<char> {
    if label.len() >= 2 && label.subrange(label.len() - 2, label.len() as int) == " *"@ {
        label.subrange(0, label.len() - 2)
    } else {
        label
    }
}

/// The context a picked label names.
pub fn chosen_name(label: &str) -> (r: String)
    ensures
        r@ == unmarked(label@),
{
    let v = crate::text::chars_of(label);
    let n = v.len();
    proof {
        reveal_strlit(" *");
    }
    if n >= 2 && v[n - 2] == ' ' && v[n - 1] == '*' {
        let head = crate::text::chars_sub(&v, 0, n - 2);
        assert(label@.subrange(n - 2, n as int) =~= " *"@);
        crate::text::string_of(&head)
    } else {
        proof {
            if n >= 2 {
                if label@.subrange(n - 2, n as int) == " *"@ {
                    assert(label@.subrange(n - 2, n as int)[0] == ' ');
                    assert(label@.subrange(n - 2, n as int)[1] == '*');
                }
            }
        }
        owned(label)
    }
}

/// The cluster a context belongs to in clusters-only mode: the base cluster
/// name its name and its cluster's server suggest.
pub open spec fn cluster_key(c: KubeConfigView, ctx: NamedItemView) -> Seq<char> {
    base_cluster_name(ctx.name, context_server(c, ctx))
}

/// The clusters of `ctxs`, each once, in the order of their first appearance.
pub open spec fn key_order(c: KubeConfigView, ctxs: Seq<NamedItemView>) -> Seq<Seq<char>>
    decreases ctxs.len(),
{
    if ctxs.len() == 0 {
        Seq::empty()
    } else {
        let prev = key_order(c, ctxs.drop_last());
        let k = cluster_key(c, ctxs.last());
        if prev.contains(k) {
            prev
        } else {
            prev.push(k)
        }
    }
}

/// The contexts of `ctxs` that belong to cluster `k`, in their order.
pub open spec fn in_cluster(c: KubeConfigView, ctxs: Seq<NamedItemView>, k: Seq<char>) -> Seq<NamedItemView>
    decreases ctxs.len(),
{
    if ctxs.len() == 0 {
        Seq::empty()
    } else {
        let prev = in_cluster(c, ctxs.drop_last(), k);
        if cluster_key(c, ctxs.last()) == k {
            prev.push(ctxs.last())
        } else {
            prev
        }
    }
}

/// The first namespace set among the contexts, in their order.
pub open spec fn first_namespace(ctxs: Seq<NamedItemView>) -> Option<Seq<char>>
    decreases ctxs.len(),
{
    if ctxs.len() == 0 {
        None
    } else {
        match first_namespace(ctxs.drop_last()) {
            Some(n) => Some(n),
            None => context_namespace(ctxs.last().rest),
        }
    }
}

/// The cluster of context `ctx` of `cfg`.
pub fn context_cluster_key(cfg: &KubeConfig, ctx: &NamedItem) -> (r: String)
    ensures
        r@ == cluster_key(cfg@, ctx@),
{
    let server: Option<String> = match extract_context_refs(&ctx.rest) {
        Ok((cluster, _)) => match cfg.find_cluster(cluster.as_str()) {
            Some(item) => extract_server_url_from_cluster(&item.rest),
            None => None,
        },
        Err(_) => None,
    };
    assert(opt_str(server) == context_server(cfg@, ctx@));
    match &server {
        Some(s) => extract_base_cluster_name(ctx.name.as_str(), Some(s.as_str())),
        None => extract_base_cluster_name(ctx.name.as_str(), None),
    }
}

/// The clusters of the clusters-only picker, sorted, and their labels: the
/// current context's cluster (by its name alone) marked.
#[derive(Debug)]
pub struct ClusterChoices {
    pub keys: Vec<String>,
    pub labels: Vec<String>,
}

/// The cluster of the current context, as the picker marks it.
pub open spec fn current_key(c: KubeConfigView) -> Option<Seq<char>> {
    match c.current_context {
        Some(n) => Some(base_cluster_name(n, None)),
        None => None,
    }
}

/// The choices of the clusters-only picker: every cluster of the contexts
/// (each context name once) once, sorted, with its label; `NoContexts` when
/// there is none.
pub fn cluster_choices(cfg: &KubeConfig) -> (r: Result<ClusterChoices, K8pkError>)
    ensures
        match r {
            Ok(ch) => {
                &&& views(ch.keys@).to_multiset() == key_order(cfg@, unique_by_name(cfg@.contexts)).to_multiset()
                &&& names_sorted(views(ch.keys@))
                &&& ch.labels@.len() == ch.keys@.len()
                &&& ch.keys@.len() > 0
                &&& forall|i: int| 0 <= i < ch.keys@.len() ==> (#[trigger] ch.labels@[i])@ == marked(
                    ch.keys@[i]@,
                    current_key(cfg@) == Some(ch.keys@[i]@),
                )
            },
            Err(e) => e is NoContexts && key_order(cfg@, unique_by_name(cfg@.contexts)).len() == 0,
        },
{
    let items = picker_contexts(cfg);
    let ghost u = items_view(items@);
    let mut keys: Vec<String> = Vec::new();
    let mut i: usize = 0;
    while i < items.len()
        invariant
            i <= items@.len(),
            u == items_view(items@),
            views(keys@) == key_order(cfg@, u.take(i as int)),
        decreases items.len() - i,
    {
        proof {
            assert(u.take(i + 1).drop_last() =~= u.take(i as int));
            assert(u.take(i + 1).last() == u[i as int]);
        }
        let k = context_cluster_key(cfg, &items[i]);
        if !contains_str(keys.as_slice(), k.as_str()) {
            let ghost before = views(keys@);
            let ghost kv = k@;
            keys.push(k);
            assert(views(keys@) =~= before.push(kv));
        }
        i = i + 1;
    }
    assert(u.take(u.len() as int) =~= u);
    if keys.len() == 0 {
        return Err(K8pkError::NoContexts);
    }
    let ghost kv = views(keys@);
    let sorted = sort_strings(keys);
    let current: Option<String> = match &cfg.current_context {
        Some(n) => Some(extract_base_cluster_name(n.as_str(), None)),
        None => None,
    };
    assert(opt_str(current) == current_key(cfg@));
    let mut labels: Vec<String> = Vec::new();
    let mut j: usize = 0;
    while j < sorted.len()
        invariant
            j <= sorted@.len(),
            opt_str(current) == current_key(cfg@),
            labels@.len() == j,
            forall|t: int| 0 <= t < j ==> (#[trigger] labels@[t])@ == marked(
                sorted@[t]@,
                current_key(cfg@) == Some(sorted@[t]@),
            ),
        decreases sorted.len() - j,
    {
        let is_current = match &current {
            Some(c) => str_eq(c.as_str(), sorted[j].as_str()),
            None => false,
        };
        let label = if is_current {
            concat(sorted[j].as_str(), " *")
        } else {
            owned(sorted[j].as_str())
        };
        labels.push(label);
        j = j + 1;
    }
    proof {
        kv.to_multiset_ensures();
        views(sorted@).to_multiset_ensures();
    }
    Ok(ClusterChoices { keys: sorted, labels })
}

/// What picking cluster `key` gives: its first context (each context name
/// once), and the first namespace its contexts set.
pub fn cluster_pick(cfg: &KubeConfig, key: &str) -> (r: Option<(String, Option<String>)>)
    ensures
        ({
            let g = in_cluster(cfg@, unique_by_name(cfg@.contexts), key@);
            match r {
                Some((c, ns)) => g.len() > 0 && c@ == g[0].name && opt_str(ns) == first_namespace(g),
                None => g.len() == 0,
            }
        }),
{
    let items = picker_contexts(cfg);
    let ghost u = items_view(items@);
    let mut first: Option<String> = None;
    let mut ns: Option<String> = None;
    let mut i: usize = 0;
    while i < items.len()
        invariant
            i <= items@.len(),
            u == items_view(items@),
            ({
                let g = in_cluster(cfg@, u.take(i as int), key@);
                &&& (first is None <==> g.len() == 0)
                &&& (first matches Some(f) ==> g.len() > 0 && f@ == g[0].name)
                &&& opt_str(ns) == first_namespace(g)
            }),
        decreases items.len() - i,
    {
        proof {
            assert(u.take(i + 1).drop_last() =~= u.take(i as int));
            assert(u.take(i + 1).last() == u[i as int]);
        }
        let k = context_cluster_key(cfg, &items[i]);
        if str_eq(k.as_str(), key) {
            let ghost g0 = in_cluster(cfg@, u.take(i as int), key@);
            let ghost g1 = g0.push(u[i as int]);
            proof {
                assert(g1.drop_last() =~= g0);
                if g0.len() > 0 {
                    assert(g1[0] == g0[0]);
                }
            }
            if first.is_none() {
                first = Some(owned(items[i].name.as_str()));
            }
            if ns.is_none() {
                ns = extract_context_namespace(&items[i].rest);
            }
        }
        i = i + 1;
    }
    assert(u.take(u.len() as int) =~= u);
    match first {
        Some(f) => Some((f, ns)),
        None => None,
    }
}

/// The namespace to use when a cluster's contexts set none: `default` when
/// the cluster has it, else the first one listed.
pub fn preferred_namespace(listed: &Vec<String>) -> (r: Option<String>)
    ensures
        views(listed@).contains("default"@) ==> (r matches Some(n) && n@ == "default"@),
        !views(listed@).contains("default"@) && listed@.len() > 0 ==> (r matches Some(n) && n@ == listed@[0]@),
        listed@.len() == 0 ==> r is None,
{
    if contains_str(listed.as_slice(), "default") {
        Some(owned("default"))
    } else if listed.len() > 0 {
        Some(owned(listed[0].as_str()))
    } else {
        proof {
            assert(views(listed@) =~= Seq::<Seq<char>>::empty());
        }
        None
    }
}

} // verus!

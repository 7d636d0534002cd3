//! Organizing a kubeconfig into one file per cluster type.

use vstd::prelude::*;
use crate::context::{join_path_exec, path_join};
use crate::kubeconfig::{
    cluster_type, context_refs, copy_item, copy_opt_str, copy_opt_yaml, detect_cluster_type,
    empty_view, extract_context_refs, extract_server_url_from_cluster, find_item, find_named,
    items_view, names, opt_str, server_url, KubeConfig, KubeConfigView, NamedItem, NamedItemView,
};
use crate::kubeconfig_ops::contains_str;
use crate::context::{match_pattern, pattern_matches};
use crate::error::{ErrorKind, K8pkError};
use crate::kubeconfig::{friendly_context_name, friendly_name};
use crate::strmap::StrMap;
use crate::text::{decimal, u64_to_string};
use crate::text::{concat, owned, sort_strings, str_eq, str_le, views};

verus! {

/// The server URL of the cluster that a context refers to, looked up among
/// the clusters of `c` (the first of that name).
pub open spec fn context_server(c: KubeConfigView, ctx: NamedItemView) -> Option<Seq<char>> {
    match context_refs(ctx.rest) {
        Ok((cluster, _)) => match find_named(c.clusters, cluster) {
            Some(i) => server_url(c.clusters[i].rest),
            None => None,
        },
        Err(_) => None,
    }
}

/// The cluster type of a context of `c`.
pub open spec fn context_type(c: KubeConfigView, ctx: NamedItemView) -> Seq<char> {
    cluster_type(ctx.name, context_server(c, ctx))
}

/// The cluster types of `ctxs`, each once, in the order of their first
/// appearance.
pub open spec fn type_order(c: KubeConfigView, ctxs: Seq<NamedItemView>) -> Seq<Seq<char>>
    decreases ctxs.len(),
{
    if ctxs.len() == 0 {
        Seq::empty()
    } else {
        let prev = type_order(c, ctxs.drop_last());
        let t = context_type(c, ctxs.last());
        if prev.contains(t) {
            prev
        } else {
            prev.push(t)
        }
    }
}

/// The contexts of `ctxs` whose cluster type is `t`, in their order.
pub open spec fn of_type(c: KubeConfigView, ctxs: Seq<NamedItemView>, t: Seq<char>) -> Seq<NamedItemView>
    decreases ctxs.len(),
{
    if ctxs.len() == 0 {
        Seq::empty()
    } else {
        let prev = of_type(c, ctxs.drop_last(), t);
        if context_type(c, ctxs.last()) == t {
            prev.push(ctxs.last())
        } else {
            prev
        }
    }
}

/// `acc` with the first item of `all` called `name` appended, unless `acc`
/// holds one of that name already or `all` holds none.
pub open spec fn add_ref(acc: Seq<NamedItemView>, all: Seq<NamedItemView>, name: Seq<char>) -> Seq<NamedItemView> {
    match find_named(all, name) {
        Some(i) => if find_named(acc, name) is None {
            acc.push(all[i])
        } else {
            acc
        },
        None => acc,
    }
}

/// The clusters and users that the contexts `ctxs` refer to, each once, in
/// the order of the first reference.
pub open spec fn type_refs(c: KubeConfigView, ctxs: Seq<NamedItemView>) -> (Seq<NamedItemView>, Seq<NamedItemView>)
    decreases ctxs.len(),
{
    if ctxs.len() == 0 {
        (Seq::empty(), Seq::empty())
    } else {
        let prev = type_refs(c, ctxs.drop_last());
        match context_refs(ctxs.last().rest) {
            Ok((cluster, user)) => (add_ref(prev.0, c.clusters, cluster), add_ref(prev.1, c.users, user)),
            Err(_) => prev,
        }
    }
}

/// The kubeconfig written for cluster type `t`: its contexts, the clusters
/// and users they refer to, and the default header fields.
pub open spec fn type_config(c: KubeConfigView, t: Seq<char>) -> KubeConfigView {
    let ctxs = of_type(c, c.contexts, t);
    let refs = type_refs(c, ctxs);
    KubeConfig::with_defaults(
        KubeConfigView { contexts: ctxs, clusters: refs.0, users: refs.1, ..empty_view() },
        None,
    )
}

/// The source kubeconfig once every context has been organized out of it.
pub open spec fn emptied(c: KubeConfigView) -> KubeConfigView {
    KubeConfig::with_defaults(
        KubeConfigView {
            contexts: Seq::empty(),
            clusters: Seq::empty(),
            users: Seq::empty(),
            current_context: None,
            ..c
        },
        None,
    )
}

/// The file name of the output for cluster type `t`.
pub open spec fn type_file_name(t: Seq<char>) -> Seq<char> {
    t + ".yaml"@
}

/// Every name comes before or equals the ones after it.
pub open spec fn names_sorted(s: Seq<Seq<char>>) -> bool {
    forall|i: int, j: int| 0 <= i < j < s.len() ==> str_le(#[trigger] s[i], #[trigger] s[j])
}

/// The cluster type of context `ctx` of `cfg`.
pub fn context_type_of(cfg: &KubeConfig, ctx: &NamedItem) -> (r: &'static str)
    ensures
        r@ == context_type(cfg@, ctx@),
{
    let server: Option<String> = match extract_context_refs(&ctx.rest) {
        Ok((cluster, _)) => match cfg.find_cluster(cluster.as_str()) {
            Some(item) => extract_server_url_from_cluster(&item.rest),
            None => None,
        },
        Err(_) => None,
    };
    assert(opt_str(server) == context_server(cfg@, ctx@));
    match &server {
        Some(s) => detect_cluster_type(ctx.name.as_str(), Some(s.as_str())),
        None => detect_cluster_type(ctx.name.as_str(), None),
    }
}

/// The cluster type of each context of `cfg`.
fn context_types(cfg: &KubeConfig) -> (r: Vec<&'static str>)
    ensures
        r@.len() == cfg@.contexts.len(),
        forall|i: int| 0 <= i < r@.len() ==> (#[trigger] r@[i])@ == context_type(cfg@, cfg@.contexts[i]),
{
    let mut r: Vec<&'static str> = Vec::new();
    let mut i: usize = 0;
    while i < cfg.contexts.len()
        invariant
            i <= cfg.contexts@.len(),
            r@.len() == i,
            forall|j: int| 0 <= j < i ==> (#[trigger] r@[j])@ == context_type(cfg@, cfg@.contexts[j]),
        decreases cfg.contexts.len() - i,
    {
        let t = context_type_of(cfg, &cfg.contexts[i]);
        r.push(t);
        i = i + 1;
    }
    r
}

/// The distinct cluster types of the contexts, in the order of their first
/// appearance.
fn distinct_types(cfg: &KubeConfig, types: &Vec<&'static str>) -> (r: Vec<String>)
    requires
        types@.len() == cfg@.contexts.len(),
        forall|i: int| 0 <= i < types@.len() ==> (#[trigger] types@[i])@ == context_type(cfg@, cfg@.contexts[i]),
    ensures
        views(r@) == type_order(cfg@, cfg@.contexts),
{
    let ghost ctxs = cfg@.contexts;
    let mut r: Vec<String> = Vec::new();
    let mut i: usize = 0;
    while i < types.len()
        invariant
            i <= types@.len(),
            types@.len() == ctxs.len(),
            ctxs == cfg@.contexts,
            forall|k: int| 0 <= k < types@.len() ==> (#[trigger] types@[k])@ == context_type(cfg@, ctxs[k]),
            views(r@) == type_order(cfg@, ctxs.take(i as int)),
        decreases types.len() - i,
    {
        let t = types[i];
        proof {
            assert(ctxs.take(i + 1).drop_last() =~= ctxs.take(i as int));
            assert(ctxs.take(i + 1).last() == ctxs[i as int]);
        }
        if !contains_str(r.as_slice(), t) {
            r.push(owned(t));
            proof {
                assert(views(r@) =~= type_order(cfg@, ctxs.take(i as int)).push(t@));
            }
        }
        i = i + 1;
    }
    assert(ctxs.take(ctxs.len() as int) =~= ctxs);
    r
}

/// The names of the contexts of type `t`, in their order.
fn names_of_type(cfg: &KubeConfig, types: &Vec<&'static str>, t: &str) -> (r: Vec<String>)
    requires
        types@.len() == cfg@.contexts.len(),
        forall|i: int| 0 <= i < types@.len() ==> (#[trigger] types@[i])@ == context_type(cfg@, cfg@.contexts[i]),
    ensures
        views(r@) == names(of_type(cfg@, cfg@.contexts, t@)),
{
    let ghost ctxs = cfg@.contexts;
    let mut r: Vec<String> = Vec::new();
    let mut i: usize = 0;
    while i < types.len()
        invariant
            i <= types@.len(),
            types@.len() == ctxs.len(),
            ctxs == cfg@.contexts,
            ctxs == items_view(cfg.contexts@),
            forall|k: int| 0 <= k < types@.len() ==> (#[trigger] types@[k])@ == context_type(cfg@, ctxs[k]),
            views(r@) == names(of_type(cfg@, ctxs.take(i as int), t@)),
        decreases types.len() - i,
    {
        proof {
            assert(ctxs.take(i + 1).drop_last() =~= ctxs.take(i as int));
            assert(ctxs.take(i + 1).last() == ctxs[i as int]);
        }
        if str_eq(types[i], t) {
            let n = cfg.contexts[i].name.clone();
            proof {
                assert(cfg.contexts@[i as int]@ == ctxs[i as int]);
                let prev = of_type(cfg@, ctxs.take(i as int), t@);
                assert(names(prev.push(ctxs[i as int])) =~= names(prev).push(n@));
            }
            r.push(n);
            proof {
                assert(views(r@) =~= names(of_type(cfg@, ctxs.take(i as int), t@)).push(n@));
            }
        }
        i = i + 1;
    }
    assert(ctxs.take(ctxs.len() as int) =~= ctxs);
    r
}

/// The kubeconfig written for the contexts of type `t`.
fn type_kubeconfig(cfg: &KubeConfig, types: &Vec<&'static str>, t: &str) -> (r: KubeConfig)
    requires
        types@.len() == cfg@.contexts.len(),
        forall|i: int| 0 <= i < types@.len() ==> (#[trigger] types@[i])@ == context_type(cfg@, cfg@.contexts[i]),
    ensures
        r@ == type_config(cfg@, t@),
{
    let ghost ctxs = cfg@.contexts;
    let mut out = KubeConfig::default();
    let mut i: usize = 0;
    while i < types.len()
        invariant
            i <= types@.len(),
            types@.len() == ctxs.len(),
            ctxs == cfg@.contexts,
            ctxs == items_view(cfg.contexts@),
            forall|k: int| 0 <= k < types@.len() ==> (#[trigger] types@[k])@ == context_type(cfg@, ctxs[k]),
            out@.api_version is None,
            out@.kind is None,
            out@.preferences is None,
            out@.current_context is None,
            out@.extensions is None,
            out@.contexts == of_type(cfg@, ctxs.take(i as int), t@),
            out@.clusters == type_refs(cfg@, of_type(cfg@, ctxs.take(i as int), t@)).0,
            out@.users == type_refs(cfg@, of_type(cfg@, ctxs.take(i as int), t@)).1,
        decreases types.len() - i,
    {
        proof {
            assert(ctxs.take(i + 1).drop_last() =~= ctxs.take(i as int));
            assert(ctxs.take(i + 1).last() == ctxs[i as int]);
        }
        if str_eq(types[i], t) {
            let ghost sel = of_type(cfg@, ctxs.take(i as int), t@);
            let ghost x = ctxs[i as int];
            proof {
                assert(cfg.contexts@[i as int]@ == x);
                assert(sel.push(x).drop_last() =~= sel);
            }
            let item = copy_item(&cfg.contexts[i]);
            let ghost before = out.contexts@;
            out.contexts.push(item);
            proof {
                assert(items_view(out.contexts@) =~= items_view(before).push(x));
            }
            match extract_context_refs(&cfg.contexts[i].rest) {
                Ok((cn, un)) => {
                    match cfg.find_cluster(cn.as_str()) {
                        Some(cl) => {
                            if find_item(&out.clusters, cn.as_str()).is_none() {
                                let c = copy_item(cl);
                                let ghost b = out.clusters@;
                                out.clusters.push(c);
                                proof {
                                    assert(items_view(out.clusters@) =~= items_view(b).push(c@));
                                }
                            }
                        },
                        None => {},
                    }
                    match cfg.find_user(un.as_str()) {
                        Some(u) => {
                            if find_item(&out.users, un.as_str()).is_none() {
                                let c = copy_item(u);
                                let ghost b = out.users@;
                                out.users.push(c);
                                proof {
                                    assert(items_view(out.users@) =~= items_view(b).push(c@));
                                }
                            }
                        },
                        None => {},
                    }
                },
                Err(_) => {},
            }
        }
        i = i + 1;
    }
    proof {
        assert(ctxs.take(ctxs.len() as int) =~= ctxs);
    }
    out.ensure_defaults(None);
    out
}

/// One output file of an organize run: a cluster type, the names of its
/// contexts (sorted) and the file they go to.
#[derive(Debug)]
pub struct OrganizeGroup {
    pub cluster_type: String,
    pub contexts: Vec<String>,
    pub output_path: String,
}

/// What an organize run did or would do.
#[derive(Debug)]
pub struct OrganizeResult {
    pub source: String,
    pub output_dir: String,
    pub dry_run: bool,
    pub remove_from_source: bool,
    pub groups: Vec<OrganizeGroup>,
}

/// An organize run worked out in full: its result, the kubeconfig to write
/// for each group (none on a dry run), and what the source file becomes
/// when its contexts are moved out.
#[derive(Debug)]
pub struct OrganizePlan {
    pub result: OrganizeResult,
    pub files: Vec<KubeConfig>,
    pub source_after: Option<KubeConfig>,
}

/// Group `k` of an organize run over `c`: the `k`-th cluster type, its
/// contexts, and its file under `output_dir`.
pub open spec fn group_is(g: OrganizeGroup, c: KubeConfigView, output_dir: Seq<char>, t: Seq<char>) -> bool {
    &&& g.cluster_type@ == t
    &&& g.output_path@ == path_join(output_dir, type_file_name(t))
    &&& views(g.contexts@).to_multiset() == names(of_type(c, c.contexts, t)).to_multiset()
    &&& names_sorted(views(g.contexts@))
}

/// Organize the kubeconfig `cfg`, read from `source`, into one file per
/// cluster type under `output_dir`. Groups come in the order in which their
/// cluster type first appears among the contexts.
pub fn organize_by_cluster_type(
    source: &str,
    output_dir: &str,
    cfg: &KubeConfig,
    dry_run: bool,
    remove_from_source: bool,
) -> (r: OrganizePlan)
    ensures
        r.result.source@ == source@,
        r.result.output_dir@ == output_dir@,
        r.result.dry_run == dry_run,
        r.result.remove_from_source == remove_from_source,
        r.result.groups@.len() == type_order(cfg@, cfg@.contexts).len(),
        forall|k: int| 0 <= k < r.result.groups@.len() ==> group_is(
            #[trigger] r.result.groups@[k],
            cfg@,
            output_dir@,
            type_order(cfg@, cfg@.contexts)[k],
        ),
        dry_run ==> r.files@.len() == 0,
        !dry_run ==> r.files@.len() == r.result.groups@.len(),
        !dry_run ==> forall|k: int| 0 <= k < r.files@.len() ==> (#[trigger] r.files@[k])@ == type_config(
            cfg@,
            type_order(cfg@, cfg@.contexts)[k],
        ),
        match r.source_after {
            Some(s) => remove_from_source && !dry_run && s@ == emptied(cfg@),
            None => !(remove_from_source && !dry_run),
        },
{
    let types = context_types(cfg);
    let order = distinct_types(cfg, &types);
    let ghost tord = type_order(cfg@, cfg@.contexts);
    let mut groups: Vec<OrganizeGroup> = Vec::new();
    let mut files: Vec<KubeConfig> = Vec::new();
    let mut k: usize = 0;
    while k < order.len()
        invariant
            k <= order@.len(),
            views(order@) == tord,
            tord == type_order(cfg@, cfg@.contexts),
            types@.len() == cfg@.contexts.len(),
            forall|i: int| 0 <= i < types@.len() ==> (#[trigger] types@[i])@ == context_type(cfg@, cfg@.contexts[i]),
            groups@.len() == k,
            forall|j: int| 0 <= j < k ==> group_is(#[trigger] groups@[j], cfg@, output_dir@, tord[j]),
            dry_run ==> files@.len() == 0,
            !dry_run ==> files@.len() == k,
            !dry_run ==> forall|j: int| 0 <= j < k ==> (#[trigger] files@[j])@ == type_config(cfg@, tord[j]),
        decreases order.len() - k,
    {
        let t = order[k].as_str();
        assert(t@ == tord[k as int]);
        let names_t = names_of_type(cfg, &types, t);
        let sorted = sort_strings(names_t);
        let file_name = concat(t, ".yaml");
        let path = join_path_exec(output_dir, file_name.as_str());
        let g = OrganizeGroup { cluster_type: owned(t), contexts: sorted, output_path: path };
        assert(group_is(g, cfg@, output_dir@, tord[k as int]));
        groups.push(g);
        if !dry_run {
            files.push(type_kubeconfig(cfg, &types, t));
        }
        k = k + 1;
    }
    let source_after = if remove_from_source && !dry_run {
        let mut s = KubeConfig {
            api_version: copy_opt_str(&cfg.api_version),
            kind: copy_opt_str(&cfg.kind),
            preferences: copy_opt_yaml(&cfg.preferences),
            clusters: Vec::new(),
            current_context: None,
            contexts: Vec::new(),
            users: Vec::new(),
            extensions: copy_opt_yaml(&cfg.extensions),
        };
        proof {
            assert(s@.clusters =~= Seq::<NamedItemView>::empty());
            assert(s@.contexts =~= Seq::<NamedItemView>::empty());
            assert(s@.users =~= Seq::<NamedItemView>::empty());
        }
        s.ensure_defaults(None);
        Some(s)
    } else {
        None
    };
    OrganizePlan {
        result: OrganizeResult {
            source: owned(source),
            output_dir: owned(output_dir),
            dry_run,
            remove_from_source,
            groups,
        },
        files,
        source_after,
    }
}

// ---------------------------------------------------------------------------
// Summary
// ---------------------------------------------------------------------------

/// The number of contexts over the groups.
pub open spec fn total_contexts(gs: Seq<OrganizeGroup>) -> nat
    decreases gs.len(),
{
    if gs.len() == 0 {
        0
    } else {
        total_contexts(gs.drop_last()) + gs.last().contexts@.len()
    }
}

/// The lines listing a group's contexts with their friendly names (dry runs).
pub open spec fn context_lines(cs: Seq<Seq<char>>, t: Seq<char>) -> Seq<Seq<char>>
    decreases cs.len(),
{
    if cs.len() == 0 {
        Seq::empty()
    } else {
        context_lines(cs.drop_last(), t).push("    - "@ + cs.last() + " ("@ + friendly_name(cs.last(), t) + ")"@)
    }
}

/// The summary lines of one group.
pub open spec fn group_lines(g: OrganizeGroup, dry_run: bool) -> Seq<Seq<char>> {
    seq!["  "@ + decimal(g.contexts@.len()) + " contexts -> "@ + g.output_path@] + if dry_run {
        context_lines(views(g.contexts@), g.cluster_type@)
    } else {
        Seq::empty()
    }
}

/// The summary lines of the groups, in order.
pub open spec fn groups_lines(gs: Seq<OrganizeGroup>, dry_run: bool) -> Seq<Seq<char>>
    decreases gs.len(),
{
    if gs.len() == 0 {
        Seq::empty()
    } else {
        groups_lines(gs.drop_last(), dry_run) + group_lines(gs.last(), dry_run)
    }
}

/// The summary of an organize run, line by line.
pub open spec fn summary_lines(r: OrganizeResult) -> Seq<Seq<char>> {
    seq!["Organizing "@ + decimal(total_contexts(r.groups@)) + " contexts:"@] + groups_lines(r.groups@, r.dry_run) + (
    if r.remove_from_source && !r.dry_run {
        seq!["Source file updated: "@ + r.source@]
    } else {
        Seq::empty()
    }) + if r.dry_run {
        seq!["\nDry run complete. Use without --dry-run to create files."@]
    } else {
        seq!["\nOrganization complete. Add "@ + r.output_dir@ + " to your KUBECONFIG path."@]
    }
}

fn push_line(out: &mut Vec<String>, line: String)
    ensures
        views(final(out)@) == views(old(out)@).push(line@),
{
    let ghost before = views(out@);
    out.push(line);
    assert(views(out@) =~= before.push(line@));
}

/// The summary of an organize run, line by line. The total is what a
/// machine word holds.
pub fn organize_summary(result: &OrganizeResult) -> (r: Vec<String>)
    requires
        total_contexts(result.groups@) <= u64::MAX,
    ensures
        views(r@) == summary_lines(*result),
{
    let gs = &result.groups;
    let mut total: u64 = 0;
    let mut i: usize = 0;
    while i < gs.len()
        invariant
            i <= gs@.len(),
            total == total_contexts(gs@.take(i as int)),
            total_contexts(gs@) <= u64::MAX,
            total_contexts(gs@.take(i as int)) <= total_contexts(gs@),
        decreases gs.len() - i,
    {
        proof {
            assert(gs@.take(i + 1).drop_last() =~= gs@.take(i as int));
            lemma_total_prefix(gs@, i + 1);
        }
        total = total + gs[i].contexts.len() as u64;
        i = i + 1;
    }
    assert(gs@.take(gs@.len() as int) =~= gs@);
    let mut out: Vec<String> = Vec::new();
    let a = concat("Organizing ", u64_to_string(total).as_str());
    push_line(&mut out, concat(a.as_str(), " contexts:"));
    let ghost head = views(out@);
    let mut k: usize = 0;
    while k < gs.len()
        invariant
            k <= gs@.len(),
            views(out@) == head + groups_lines(gs@.take(k as int), result.dry_run),
        decreases gs.len() - k,
    {
        assert(gs@.take(k + 1).drop_last() =~= gs@.take(k as int));
        assert(gs@.take(k + 1).last() == gs@[k as int]);
        let g = &gs[k];
        let ghost before = views(out@);
        let n = u64_to_string(g.contexts.len() as u64);
        let b = concat("  ", n.as_str());
        let c = concat(b.as_str(), " contexts -> ");
        push_line(&mut out, concat(c.as_str(), g.output_path.as_str()));
        let ghost first = views(out@);
        if result.dry_run {
            let mut j: usize = 0;
            while j < g.contexts.len()
                invariant
                    j <= g.contexts@.len(),
                    views(out@) == first + context_lines(views(g.contexts@).take(j as int), g.cluster_type@),
                decreases g.contexts.len() - j,
            {
                assert(views(g.contexts@).take(j + 1).drop_last() =~= views(g.contexts@).take(j as int));
                assert(views(g.contexts@).take(j + 1).last() == g.contexts@[j as int]@);
                let ctx = g.contexts[j].as_str();
                let f = friendly_context_name(ctx, g.cluster_type.as_str());
                let d = concat("    - ", ctx);
                let e = concat(d.as_str(), " (");
                let h = concat(e.as_str(), f.as_str());
                let ghost mid = views(out@);
                push_line(&mut out, concat(h.as_str(), ")"));
                assert(views(out@) =~= first + context_lines(views(g.contexts@).take(j + 1), g.cluster_type@));
                j = j + 1;
            }
            assert(views(g.contexts@).take(g.contexts@.len() as int) =~= views(g.contexts@));
        }
        assert(views(out@) =~= before + group_lines(*g, result.dry_run));
        k = k + 1;
    }
    assert(gs@.take(gs@.len() as int) =~= gs@);
    let ghost body = views(out@);
    if result.remove_from_source && !result.dry_run {
        push_line(&mut out, concat("Source file updated: ", result.source.as_str()));
    }
    let ghost body2 = views(out@);
    if result.dry_run {
        push_line(&mut out, owned("\nDry run complete. Use without --dry-run to create files."));
    } else {
        let x = concat("\nOrganization complete. Add ", result.output_dir.as_str());
        push_line(&mut out, concat(x.as_str(), " to your KUBECONFIG path."));
    }
    assert(views(out@) =~= summary_lines(*result));
    out
}

proof fn lemma_total_prefix(gs: Seq<OrganizeGroup>, n: int)
    requires
        0 <= n <= gs.len(),
    ensures
        total_contexts(gs.take(n)) <= total_contexts(gs),
    decreases gs.len(),
{
    if n < gs.len() {
        assert(gs.drop_last().take(n) =~= gs.take(n));
        lemma_total_prefix(gs.drop_last(), n);
    } else {
        assert(gs.take(n) =~= gs);
    }
}

// ---------------------------------------------------------------------------
// Context information (`which`)
// ---------------------------------------------------------------------------

/// What `which` shows of a context.
#[derive(Debug)]
pub struct ContextInfo {
    pub context: String,
    pub friendly_name: String,
    pub cluster_type: String,
    pub server: Option<String>,
    pub source: Option<String>,
}

/// The server of the named context in `c` (the first context of that name).
pub open spec fn named_context_server(c: KubeConfigView, name: Seq<char>) -> Option<Seq<char>> {
    match find_named(c.contexts, name) {
        Some(i) => context_server(c, c.contexts[i]),
        None => None,
    }
}

/// What `which` shows of context `ctx`: its type (from its name and
/// server), friendly name, server, and the file it comes from.
pub fn context_info(merged: &KubeConfig, sources: &StrMap<String>, ctx: &str) -> (r: ContextInfo)
    requires
        sources.wf(),
    ensures
        r.context@ == ctx@,
        opt_str(r.server) == named_context_server(merged@, ctx@),
        r.cluster_type@ == cluster_type(ctx@, named_context_server(merged@, ctx@)),
        r.friendly_name@ == friendly_name(ctx@, r.cluster_type@),
        opt_str(r.source) == (if sources@.contains_key(ctx@) {
            Some(sources@[ctx@])
        } else {
            None
        }),
{
    let server: Option<String> = match merged.find_context(ctx) {
        Some(item) => match extract_context_refs(&item.rest) {
            Ok((cluster, _)) => match merged.find_cluster(cluster.as_str()) {
                Some(c) => extract_server_url_from_cluster(&c.rest),
                None => None,
            },
            Err(_) => None,
        },
        None => None,
    };
    let t = match &server {
        Some(s) => detect_cluster_type(ctx, Some(s.as_str())),
        None => detect_cluster_type(ctx, None),
    };
    let friendly = friendly_context_name(ctx, t);
    let source = match sources.get(ctx) {
        Some(p) => Some(p.clone()),
        None => None,
    };
    ContextInfo { context: owned(ctx), friendly_name: friendly, cluster_type: owned(t), server, source }
}

/// The contexts `which` reports on: those matching the pattern, or all
/// known ones; an error when there are none.
pub fn which_contexts(pattern: Option<&str>, sources: &StrMap<String>) -> (r: Result<Vec<String>, K8pkError>)
    requires
        sources.wf(),
    ensures
        match r {
            Ok(v) => views(v@) == (match pattern {
                Some(p) => pattern_matches(p@, sources.key_order()),
                None => sources.key_order(),
            }) && v@.len() > 0,
            Err(e) => e.kind() == ErrorKind::NoContexts && (match pattern {
                Some(p) => pattern_matches(p@, sources.key_order()),
                None => sources.key_order(),
            }).len() == 0,
        },
{
    let all = sources.keys();
    assert(views(all@) =~= all@.map_values(|k: String| k@));
    let contexts = match pattern {
        Some(p) => match_pattern(p, all.as_slice()),
        None => all,
    };
    if contexts.len() == 0 {
        return Err(K8pkError::NoContexts);
    }
    Ok(contexts)
}

} // verus!

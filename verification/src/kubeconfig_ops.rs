//! Operations over whole kubeconfigs: merge, diff, lint, rename, copy, remove.

use vstd::prelude::*;
use crate::error::{ErrorKind, K8pkError};
use crate::kubeconfig::{
    configs_view, context_refs, copy_item, copy_opt_str, extract_context_refs, find_item,
    find_named, items_view, names, opt_str, KubeConfig, KubeConfigView, NamedItem, NamedItemView,
};
use crate::kubeconfig::{sanitize_filename, sanitized};
use crate::text::{
    chars_find, chars_of, chars_sub, chars_trim_end_seq, concat, find_char, has_suffix, owned,
    str_ends_with, str_eq, string_of, trim_end_seq, views,
};
use crate::yaml::YamlView;

verus! {

/// `items` without those called `n`.
pub open spec fn drop_named(items: Seq<NamedItemView>, n: Seq<char>) -> Seq<NamedItemView>
    decreases items.len(),
{
    if items.len() == 0 {
        Seq::empty()
    } else {
        let r = drop_named(items.drop_last(), n);
        if items.last().name == n {
            r
        } else {
            r.push(items.last())
        }
    }
}

/// Items merged in order: with `overwrite`, a later item replaces an earlier
/// one of the same name and moves to the end; without it, the first one stays.
pub open spec fn merge_items(items: Seq<NamedItemView>, overwrite: bool) -> Seq<NamedItemView>
    decreases items.len(),
{
    if items.len() == 0 {
        Seq::empty()
    } else {
        let acc = merge_items(items.drop_last(), overwrite);
        let x = items.last();
        if overwrite {
            drop_named(acc, x.name).push(x)
        } else if names(acc).contains(x.name) {
            acc
        } else {
            acc.push(x)
        }
    }
}

/// The contexts of all kubeconfigs, in order.
pub open spec fn all_contexts(cfgs: Seq<KubeConfigView>) -> Seq<NamedItemView>
    decreases cfgs.len(),
{
    if cfgs.len() == 0 {
        Seq::empty()
    } else {
        all_contexts(cfgs.drop_last()) + cfgs.last().contexts
    }
}

/// The clusters of all kubeconfigs, in order.
pub open spec fn all_clusters(cfgs: Seq<KubeConfigView>) -> Seq<NamedItemView>
    decreases cfgs.len(),
{
    if cfgs.len() == 0 {
        Seq::empty()
    } else {
        all_clusters(cfgs.drop_last()) + cfgs.last().clusters
    }
}

/// The users of all kubeconfigs, in order.
pub open spec fn all_users(cfgs: Seq<KubeConfigView>) -> Seq<NamedItemView>
    decreases cfgs.len(),
{
    if cfgs.len() == 0 {
        Seq::empty()
    } else {
        all_users(cfgs.drop_last()) + cfgs.last().users
    }
}

/// The first current context set among the kubeconfigs.
pub open spec fn first_current(cfgs: Seq<KubeConfigView>) -> Option<Seq<char>>
    decreases cfgs.len(),
{
    if cfgs.len() == 0 {
        None
    } else {
        let f = first_current(cfgs.drop_last());
        if f is None {
            cfgs.last().current_context
        } else {
            f
        }
    }
}

/// What merging kubeconfig files gives.
pub open spec fn merged_files(cfgs: Seq<KubeConfigView>, overwrite: bool) -> KubeConfigView {
    KubeConfig::with_defaults(
        KubeConfigView {
            api_version: None,
            kind: None,
            preferences: None,
            clusters: merge_items(all_clusters(cfgs), overwrite),
            current_context: first_current(cfgs),
            contexts: merge_items(all_contexts(cfgs), overwrite),
            users: merge_items(all_users(cfgs), overwrite),
            extensions: None,
        },
        None,
    )
}

proof fn lemma_drop_named_push(items: Seq<NamedItemView>, x: NamedItemView, n: Seq<char>)
    ensures
        drop_named(items.push(x), n) == if x.name == n {
            drop_named(items, n)
        } else {
            drop_named(items, n).push(x)
        },
{
    assert(items.push(x).drop_last() =~= items);
}

/// Removes the items called `n`, keeping the order of the others.
pub fn retain_not_named(v: &mut Vec<NamedItem>, n: &str)
    ensures
        items_view(final(v)@) == drop_named(items_view(old(v)@), n@),
{
    let ghost iv = items_view(v@);
    let mut out: Vec<NamedItem> = Vec::new();
    let mut i: usize = 0;
    while i < v.len()
        invariant
            i <= v@.len(),
            iv == items_view(v@),
            items_view(out@) == drop_named(iv.take(i as int), n@),
        decreases v.len() - i,
    {
        proof {
            assert(iv.take(i + 1) =~= iv.take(i as int).push(iv[i as int]));
            lemma_drop_named_push(iv.take(i as int), iv[i as int], n@);
        }
        if !str_eq(v[i].name.as_str(), n) {
            let ghost before = out@;
            out.push(copy_item(&v[i]));
            assert(items_view(out@) =~= items_view(before).push(iv[i as int]));
        }
        i = i + 1;
    }
    assert(iv.take(v.len() as int) =~= iv);
    *v = out;
}

fn contains_name(v: &Vec<NamedItem>, n: &str) -> (r: bool)
    ensures
        r == names(items_view(v@)).contains(n@),
{
    let r = find_item(v, n).is_some();
    proof {
        crate::kubeconfig::lemma_find_named(items_view(v@), n@);
        if names(items_view(v@)).contains(n@) {
            let j = choose|j: int| 0 <= j < names(items_view(v@)).len() && names(items_view(v@))[j] == n@;
            assert(items_view(v@)[j].name == n@);
        }
        if r {
            let j = find_named(items_view(v@), n@)->0;
            assert(names(items_view(v@))[j] == n@);
        }
    }
    r
}

fn merge_into(acc: &mut Vec<NamedItem>, src: &Vec<NamedItem>, overwrite: bool, Ghost(before): Ghost<Seq<NamedItemView>>)
    requires
        items_view(old(acc)@) == merge_items(before, overwrite),
    ensures
        items_view(final(acc)@) == merge_items(before + items_view(src@), overwrite),
{
    let ghost sv = items_view(src@);
    let mut i: usize = 0;
    assert(before + sv.take(0) =~= before);
    while i < src.len()
        invariant
            i <= src@.len(),
            sv == items_view(src@),
            items_view(acc@) == merge_items(before + sv.take(i as int), overwrite),
        decreases src.len() - i,
    {
        let ghost prev = before + sv.take(i as int);
        proof {
            assert((before + sv.take(i + 1)).drop_last() =~= prev);
            assert((before + sv.take(i + 1)).last() == sv[i as int]);
        }
        let name = src[i].name.as_str();
        if overwrite {
            retain_not_named(acc, name);
            let ghost mid = acc@;
            acc.push(copy_item(&src[i]));
            assert(items_view(acc@) =~= items_view(mid).push(sv[i as int]));
        } else if !contains_name(acc, name) {
            let ghost mid = acc@;
            acc.push(copy_item(&src[i]));
            assert(items_view(acc@) =~= items_view(mid).push(sv[i as int]));
        }
        i = i + 1;
    }
    assert(sv.take(src.len() as int) =~= sv);
}

/// Merges parsed kubeconfig files: contexts, clusters and users are merged by
/// name (first wins, or last wins with `overwrite`), the first current context
/// wins, and the top-level defaults are filled in.
pub fn merge_configs(cfgs: &[KubeConfig], overwrite: bool) -> (r: KubeConfig)
    ensures
        r@ == merged_files(configs_view(cfgs@), overwrite),
{
    let ghost cv = configs_view(cfgs@);
    let mut result = KubeConfig::default();
    let mut i: usize = 0;
    assert(cv.take(0) =~= Seq::<KubeConfigView>::empty());
    while i < cfgs.len()
        invariant
            i <= cfgs@.len(),
            cv == configs_view(cfgs@),
            result.api_version is None,
            result.kind is None,
            result.preferences is None,
            result.extensions is None,
            items_view(result.contexts@) == merge_items(all_contexts(cv.take(i as int)), overwrite),
            items_view(result.clusters@) == merge_items(all_clusters(cv.take(i as int)), overwrite),
            items_view(result.users@) == merge_items(all_users(cv.take(i as int)), overwrite),
            opt_str(result.current_context) == first_current(cv.take(i as int)),
        decreases cfgs.len() - i,
    {
        let c = &cfgs[i];
        proof {
            assert(cv.take(i + 1).drop_last() =~= cv.take(i as int));
            assert(cv.take(i + 1).last() == c@);
        }
        merge_into(&mut result.contexts, &c.contexts, overwrite, Ghost(all_contexts(cv.take(i as int))));
        merge_into(&mut result.clusters, &c.clusters, overwrite, Ghost(all_clusters(cv.take(i as int))));
        merge_into(&mut result.users, &c.users, overwrite, Ghost(all_users(cv.take(i as int))));
        if result.current_context.is_none() && c.current_context.is_some() {
            result.current_context = copy_opt_str(&c.current_context);
        }
        i = i + 1;
    }
    assert(cv.take(cfgs.len() as int) =~= cv);
    result.ensure_defaults(None);
    result
}

// ---------------------------------------------------------------------------
// Diff
// ---------------------------------------------------------------------------

/// Contexts of two kubeconfig files compared by name.
#[derive(Debug)]
pub struct DiffResult {
    pub file1: String,
    pub file2: String,
    pub only_in_1: Vec<String>,
    pub only_in_2: Vec<String>,
    pub in_both: Vec<String>,
}

/// The names of `a` that are (or are not, by `in_b`) names of `b`.
pub open spec fn names_where(a: Seq<NamedItemView>, b: Seq<NamedItemView>, in_b: bool) -> Set<Seq<char>> {
    Set::new(|n: Seq<char>| names(a).contains(n) && names(b).contains(n) == in_b)
}

/// Whether `s` is one of the strings of `v`.
pub fn contains_str(v: &[String], s: &str) -> (r: bool)
    ensures
        r == views(v@).contains(s@),
{
    let mut i: usize = 0;
    while i < v.len()
        invariant
            i <= v@.len(),
            forall|j: int| 0 <= j < i ==> v@[j]@ != s@,
        decreases v.len() - i,
    {
        if str_eq(v[i].as_str(), s) {
            assert(views(v@)[i as int] == s@);
            return true;
        }
        i = i + 1;
    }
    proof {
        if views(v@).contains(s@) {
            let j = choose|j: int| 0 <= j < views(v@).len() && views(v@)[j] == s@;
            assert(v@[j]@ == s@);
        }
    }
    false
}

/// What a sequence with one more element contains.
pub proof fn lemma_contains_push<A>(s: Seq<A>, x: A, n: A)
    ensures
        s.push(x).contains(n) <==> (s.contains(n) || n == x),
{
    if s.push(x).contains(n) {
        let j = choose|j: int| 0 <= j < s.push(x).len() && s.push(x)[j] == n;
        if j < s.len() {
            assert(s[j] == n);
        }
    }
    if s.contains(n) {
        let j = choose|j: int| 0 <= j < s.len() && s[j] == n;
        assert(s.push(x)[j] == n);
    }
    if n == x {
        assert(s.push(x)[s.len() as int] == n);
    }
}

/// One more element that is not there keeps a sequence free of duplicates.
pub proof fn lemma_push_no_duplicates<A>(s: Seq<A>, x: A)
    requires
        s.no_duplicates(),
        !s.contains(x),
    ensures
        s.push(x).no_duplicates(),
{
    assert forall|i: int, j: int|
        0 <= i < s.push(x).len() && 0 <= j < s.push(x).len() && i != j
        implies s.push(x)[i] != s.push(x)[j] by {
        if i == s.len() {
            assert(s[j] == s.push(x)[j]);
        } else if j == s.len() {
            assert(s[i] == s.push(x)[i]);
        }
    }
}

fn distinct_names_where(a: &Vec<NamedItem>, b: &Vec<NamedItem>, in_b: bool) -> (r: Vec<String>)
    ensures
        views(r@).no_duplicates(),
        views(r@).to_set() == names_where(items_view(a@), items_view(b@), in_b),
{
    let ghost na = names(items_view(a@));
    let ghost nb = names(items_view(b@));
    let mut r: Vec<String> = Vec::new();
    let mut i: usize = 0;
    while i < a.len()
        invariant
            i <= a@.len(),
            na == names(items_view(a@)),
            nb == names(items_view(b@)),
            views(r@).no_duplicates(),
            forall|n: Seq<char>| #[trigger] views(r@).contains(n) <==> (na.take(i as int).contains(n) && nb.contains(n) == in_b),
        decreases a.len() - i,
    {
        let ghost before = views(r@);
        let name = a[i].name.as_str();
        assert(name@ == na[i as int]);
        let hit = contains_name(b, name) == in_b;
        if hit && !contains_str(&r, name) {
            r.push(a[i].name.clone());
            proof {
                assert(views(r@) =~= before.push(na[i as int]));
                lemma_push_no_duplicates(before, na[i as int]);
            }
        }
        proof {
            assert(na.take(i + 1) =~= na.take(i as int).push(na[i as int]));
            assert forall|n: Seq<char>| #[trigger] views(r@).contains(n) <==> (na.take(i + 1).contains(n) && nb.contains(n) == in_b) by {
                lemma_contains_push(na.take(i as int), na[i as int], n);
                if views(r@) != before {
                    lemma_contains_push(before, na[i as int], n);
                }
            }
        }
        i = i + 1;
    }
    assert(na.take(a.len() as int) =~= na);
    assert(views(r@).to_set() =~= names_where(items_view(a@), items_view(b@), in_b));
    r
}

/// Compare the contexts of two parsed kubeconfig files.
pub fn diff_files(file1: &str, file2: &str, cfg1: &KubeConfig, cfg2: &KubeConfig, _diff_only: bool) -> (r: DiffResult)
    ensures
        r.file1@ == file1@,
        r.file2@ == file2@,
        views(r.only_in_1@).no_duplicates(),
        views(r.only_in_2@).no_duplicates(),
        views(r.in_both@).no_duplicates(),
        views(r.only_in_1@).to_set() == names_where(cfg1@.contexts, cfg2@.contexts, false),
        views(r.only_in_2@).to_set() == names_where(cfg2@.contexts, cfg1@.contexts, false),
        views(r.in_both@).to_set() == names_where(cfg1@.contexts, cfg2@.contexts, true),
{
    DiffResult {
        file1: owned(file1),
        file2: owned(file2),
        only_in_1: distinct_names_where(&cfg1.contexts, &cfg2.contexts, false),
        only_in_2: distinct_names_where(&cfg2.contexts, &cfg1.contexts, false),
        in_both: distinct_names_where(&cfg1.contexts, &cfg2.contexts, true),
    }
}


// ---------------------------------------------------------------------------
// References between contexts, clusters and users
// ---------------------------------------------------------------------------

/// The cluster (or, with `user`, the user) that a context's YAML names, when
/// it names both.
pub open spec fn context_ref(rest: YamlView, user: bool) -> Option<Seq<char>> {
    match context_refs(rest) {
        Ok((c, u)) => Some(if user { u } else { c }),
        Err(_) => None,
    }
}

/// The clusters (or, with `user`, the users) that some context names.
pub open spec fn referenced(ctxs: Seq<NamedItemView>, user: bool) -> Set<Seq<char>> {
    Set::new(|n: Seq<char>| exists|i: int| 0 <= i < ctxs.len() && context_ref(ctxs[i].rest, user) == Some(n))
}

/// The items whose name is (or, without `inside`, is not) in `s`, in order.
pub open spec fn filter_by(items: Seq<NamedItemView>, s: Set<Seq<char>>, inside: bool) -> Seq<NamedItemView>
    decreases items.len(),
{
    if items.len() == 0 {
        Seq::empty()
    } else {
        let r = filter_by(items.drop_last(), s, inside);
        if s.contains(items.last().name) == inside {
            r.push(items.last())
        } else {
            r
        }
    }
}

fn referenced_names(ctxs: &Vec<NamedItem>, user: bool) -> (r: Vec<String>)
    ensures
        forall|n: Seq<char>| #[trigger] views(r@).contains(n) <==> referenced(items_view(ctxs@), user).contains(n),
{
    let ghost cv = items_view(ctxs@);
    let mut r: Vec<String> = Vec::new();
    let mut i: usize = 0;
    while i < ctxs.len()
        invariant
            i <= ctxs@.len(),
            cv == items_view(ctxs@),
            forall|n: Seq<char>| #[trigger] views(r@).contains(n)
                <==> exists|j: int| 0 <= j < i && context_ref(cv[j].rest, user) == Some(n),
        decreases ctxs.len() - i,
    {
        let ghost before = views(r@);
        assert(cv[i as int].rest == ctxs@[i as int].rest@);
        match extract_context_refs(&ctxs[i].rest) {
            Ok((c, u)) => {
                if user {
                    r.push(u);
                } else {
                    r.push(c);
                }
            },
            Err(_) => {},
        }
        proof {
            assert forall|n: Seq<char>| #[trigger] views(r@).contains(n)
                <==> exists|j: int| 0 <= j < i + 1 && context_ref(cv[j].rest, user) == Some(n) by {
                if views(r@) != before {
                    assert(views(r@) =~= before.push(views(r@).last()));
                    lemma_contains_push(before, views(r@).last(), n);
                }
                if exists|j: int| 0 <= j < i + 1 && context_ref(cv[j].rest, user) == Some(n) {
                    let j = choose|j: int| 0 <= j < i + 1 && context_ref(cv[j].rest, user) == Some(n);
                    if j < i {
                        assert(before.contains(n));
                    }
                }
                if before.contains(n) {
                    let j = choose|j: int| 0 <= j < i && context_ref(cv[j].rest, user) == Some(n);
                    assert(0 <= j < i + 1 && context_ref(cv[j].rest, user) == Some(n));
                }
            }
        }
        i = i + 1;
    }
    r
}

proof fn lemma_filter_by_push(items: Seq<NamedItemView>, x: NamedItemView, s: Set<Seq<char>>, inside: bool)
    ensures
        filter_by(items.push(x), s, inside) == if s.contains(x.name) == inside {
            filter_by(items, s, inside).push(x)
        } else {
            filter_by(items, s, inside)
        },
{
    assert(items.push(x).drop_last() =~= items);
}

fn filter_items(items: &Vec<NamedItem>, keys: &Vec<String>, inside: bool, Ghost(s): Ghost<Set<Seq<char>>>) -> (r: Vec<NamedItem>)
    requires
        forall|n: Seq<char>| #[trigger] views(keys@).contains(n) <==> s.contains(n),
    ensures
        items_view(r@) == filter_by(items_view(items@), s, inside),
{
    let ghost iv = items_view(items@);
    let mut r: Vec<NamedItem> = Vec::new();
    let mut i: usize = 0;
    while i < items.len()
        invariant
            i <= items@.len(),
            iv == items_view(items@),
            forall|n: Seq<char>| #[trigger] views(keys@).contains(n) <==> s.contains(n),
            items_view(r@) == filter_by(iv.take(i as int), s, inside),
        decreases items.len() - i,
    {
        proof {
            assert(iv.take(i + 1) =~= iv.take(i as int).push(iv[i as int]));
            lemma_filter_by_push(iv.take(i as int), iv[i as int], s, inside);
        }
        let found = contains_str(keys, items[i].name.as_str());
        if found == inside {
            let ghost before = r@;
            r.push(copy_item(&items[i]));
            assert(items_view(r@) =~= items_view(before).push(iv[i as int]));
        }
        i = i + 1;
    }
    assert(iv.take(items.len() as int) =~= iv);
    r
}

// ---------------------------------------------------------------------------
// Lint
// ---------------------------------------------------------------------------

/// One finding of the linter.
#[derive(Debug)]
pub struct LintIssue {
    pub path: String,
    pub level: String,
    pub message: String,
}

/// The content of a finding.
pub struct LintIssueView {
    pub path: Seq<char>,
    pub level: Seq<char>,
    pub message: Seq<char>,
}

impl View for LintIssue {
    type V = LintIssueView;

    open spec fn view(&self) -> LintIssueView {
        LintIssueView { path: self.path@, level: self.level@, message: self.message@ }
    }
}

/// What the linter found over all files.
#[derive(Debug)]
pub struct LintResult {
    pub errors: usize,
    pub warnings: usize,
    pub issues: Vec<LintIssue>,
    pub failed: bool,
}

/// What reading one kubeconfig file gave.
#[derive(Debug)]
pub enum LintSource {
    /// The file does not exist.
    Missing,
    /// The file could not be read; the error's message.
    ReadError(String),
    /// The file is not a kubeconfig; the parser's message.
    ParseError(String),
    /// The parsed file.
    Parsed(KubeConfig),
}

/// A finding.
pub open spec fn issue(path: Seq<char>, level: Seq<char>, message: Seq<char>) -> LintIssueView {
    LintIssueView { path, level, message }
}

/// The content of each finding.
pub open spec fn issues_view(v: Seq<LintIssue>) -> Seq<LintIssueView> {
    v.map_values(|i: LintIssue| i@)
}

/// A warning for each item whose name is not in `refs`.
pub open spec fn orphan_issues(path: Seq<char>, items: Seq<NamedItemView>, refs: Set<Seq<char>>, prefix: Seq<char>) -> Seq<LintIssueView>
    decreases items.len(),
{
    if items.len() == 0 {
        Seq::empty()
    } else {
        let r = orphan_issues(path, items.drop_last(), refs, prefix);
        if refs.contains(items.last().name) {
            r
        } else {
            r.push(issue(path, "warning"@, prefix + items.last().name))
        }
    }
}

/// The findings in one parsed kubeconfig.
pub open spec fn config_issues(path: Seq<char>, c: KubeConfigView) -> Seq<LintIssueView> {
    (if c.contexts.len() == 0 {
        seq![issue(path, "warning"@, "file has no contexts"@)]
    } else {
        Seq::empty()
    }) + orphan_issues(path, c.clusters, referenced(c.contexts, false), "orphaned cluster: "@)
        + orphan_issues(path, c.users, referenced(c.contexts, true), "orphaned user: "@) + match c.current_context {
        Some(cur) => if names(c.contexts).contains(cur) {
            Seq::empty()
        } else {
            seq![issue(path, "error"@, "current-context not found: "@ + cur)]
        },
        None => Seq::empty(),
    }
}

/// The findings for one file.
pub open spec fn source_issues(path: Seq<char>, s: LintSource) -> Seq<LintIssueView> {
    match s {
        LintSource::Missing => seq![issue(path, "error"@, "file not found"@)],
        LintSource::ReadError(e) => seq![issue(path, "error"@, "read error: "@ + e@)],
        LintSource::ParseError(e) => seq![issue(path, "error"@, "parse error: "@ + e@)],
        LintSource::Parsed(c) => config_issues(path, c@),
    }
}

/// The findings for all files, in order.
pub open spec fn all_issues(files: Seq<(String, LintSource)>) -> Seq<LintIssueView>
    decreases files.len(),
{
    if files.len() == 0 {
        Seq::empty()
    } else {
        all_issues(files.drop_last()) + source_issues(files.last().0@, files.last().1)
    }
}

/// How many findings are at `level`.
pub open spec fn count_level(issues: Seq<LintIssueView>, level: Seq<char>) -> nat
    decreases issues.len(),
{
    if issues.len() == 0 {
        0
    } else {
        count_level(issues.drop_last(), level) + if issues.last().level == level { 1nat } else { 0nat }
    }
}

fn new_issue(path: &str, level: &str, message: String) -> (r: LintIssue)
    ensures
        r@ == issue(path@, level@, message@),
{
    LintIssue { path: owned(path), level: owned(level), message }
}

fn orphan_issues_exec(path: &str, items: &Vec<NamedItem>, refs: &Vec<String>, prefix: &str, Ghost(s): Ghost<Set<Seq<char>>>) -> (r: Vec<LintIssue>)
    requires
        forall|n: Seq<char>| #[trigger] views(refs@).contains(n) <==> s.contains(n),
    ensures
        issues_view(r@) == orphan_issues(path@, items_view(items@), s, prefix@),
{
    let ghost iv = items_view(items@);
    let mut r: Vec<LintIssue> = Vec::new();
    let mut i: usize = 0;
    while i < items.len()
        invariant
            i <= items@.len(),
            iv == items_view(items@),
            forall|n: Seq<char>| #[trigger] views(refs@).contains(n) <==> s.contains(n),
            issues_view(r@) == orphan_issues(path@, iv.take(i as int), s, prefix@),
        decreases items.len() - i,
    {
        proof {
            assert(iv.take(i + 1).drop_last() =~= iv.take(i as int));
        }
        if !contains_str(refs, items[i].name.as_str()) {
            let ghost before = r@;
            r.push(new_issue(path, "warning", concat(prefix, items[i].name.as_str())));
            assert(issues_view(r@) =~= issues_view(before).push(
                issue(path@, "warning"@, prefix@ + iv[i as int].name),
            ));
        }
        i = i + 1;
    }
    assert(iv.take(items.len() as int) =~= iv);
    r
}

fn append_issues(dst: &mut Vec<LintIssue>, src: Vec<LintIssue>)
    ensures
        issues_view(final(dst)@) == issues_view(old(dst)@) + issues_view(src@),
{
    let mut src = src;
    let ghost s0 = issues_view(src@);
    let ghost d0 = issues_view(dst@);
    dst.append(&mut src);
    assert(issues_view(dst@) =~= d0 + s0);
}

fn config_issues_exec(path: &str, cfg: &KubeConfig) -> (r: Vec<LintIssue>)
    ensures
        issues_view(r@) == config_issues(path@, cfg@),
{
    let mut r: Vec<LintIssue> = Vec::new();
    if cfg.contexts.len() == 0 {
        r.push(new_issue(path, "warning", owned("file has no contexts")));
    }
    let ghost first = issues_view(r@);
    assert(first =~= if cfg@.contexts.len() == 0 {
        seq![issue(path@, "warning"@, "file has no contexts"@)]
    } else {
        Seq::<LintIssueView>::empty()
    });
    let cluster_refs = referenced_names(&cfg.contexts, false);
    let user_refs = referenced_names(&cfg.contexts, true);
    let orphan_clusters = orphan_issues_exec(
        path,
        &cfg.clusters,
        &cluster_refs,
        "orphaned cluster: ",
        Ghost(referenced(cfg@.contexts, false)),
    );
    append_issues(&mut r, orphan_clusters);
    let orphan_users = orphan_issues_exec(
        path,
        &cfg.users,
        &user_refs,
        "orphaned user: ",
        Ghost(referenced(cfg@.contexts, true)),
    );
    append_issues(&mut r, orphan_users);
    let mut last: Vec<LintIssue> = Vec::new();
    match &cfg.current_context {
        Some(cur) => {
            if !contains_name(&cfg.contexts, cur.as_str()) {
                last.push(new_issue(path, "error", concat("current-context not found: ", cur.as_str())));
            }
        },
        None => {},
    }
    assert(issues_view(last@) =~= match cfg@.current_context {
        Some(cur) => if names(cfg@.contexts).contains(cur) {
            Seq::<LintIssueView>::empty()
        } else {
            seq![issue(path@, "error"@, "current-context not found: "@ + cur)]
        },
        None => Seq::<LintIssueView>::empty(),
    });
    append_issues(&mut r, last);
    r
}

fn source_issues_exec(path: &str, src: &LintSource) -> (r: Vec<LintIssue>)
    ensures
        issues_view(r@) == source_issues(path@, *src),
{
    let mut r: Vec<LintIssue> = Vec::new();
    match src {
        LintSource::Missing => {
            r.push(new_issue(path, "error", owned("file not found")));
        },
        LintSource::ReadError(e) => {
            r.push(new_issue(path, "error", concat("read error: ", e.as_str())));
        },
        LintSource::ParseError(e) => {
            r.push(new_issue(path, "error", concat("parse error: ", e.as_str())));
        },
        LintSource::Parsed(c) => {
            return config_issues_exec(path, c);
        },
    }
    assert(issues_view(r@) =~= source_issues(path@, *src));
    r
}

fn count_issues(issues: &Vec<LintIssue>, level: &str) -> (n: usize)
    ensures
        n == count_level(issues_view(issues@), level@),
{
    let ghost iv = issues_view(issues@);
    let mut n: usize = 0;
    let mut i: usize = 0;
    while i < issues.len()
        invariant
            i <= issues@.len(),
            iv == issues_view(issues@),
            n <= i,
            n == count_level(iv.take(i as int), level@),
        decreases issues.len() - i,
    {
        assert(iv.take(i + 1).drop_last() =~= iv.take(i as int));
        if str_eq(issues[i].level.as_str(), level) {
            n = n + 1;
        }
        i = i + 1;
    }
    assert(iv.take(issues.len() as int) =~= iv);
    n
}

/// Lints kubeconfig files: a file that is missing, unreadable or not a
/// kubeconfig is an error; a file without contexts, and a cluster or user
/// that no context names, is a warning; a current context that is not among
/// the contexts is an error. Lint fails on any error, and with `strict` on
/// any warning too.
pub fn lint(files: &[(String, LintSource)], strict: bool) -> (r: LintResult)
    ensures
        issues_view(r.issues@) == all_issues(files@),
        r.errors == count_level(all_issues(files@), "error"@),
        r.warnings == count_level(all_issues(files@), "warning"@),
        r.failed == (r.errors > 0 || (strict && r.warnings > 0)),
{
    let mut issues: Vec<LintIssue> = Vec::new();
    let mut i: usize = 0;
    while i < files.len()
        invariant
            i <= files@.len(),
            issues_view(issues@) == all_issues(files@.take(i as int)),
        decreases files.len() - i,
    {
        assert(files@.take(i + 1).drop_last() =~= files@.take(i as int));
        let found = source_issues_exec(files[i].0.as_str(), &files[i].1);
        append_issues(&mut issues, found);
        i = i + 1;
    }
    assert(files@.take(files.len() as int) =~= files@);
    let errors = count_issues(&issues, "error");
    let warnings = count_issues(&issues, "warning");
    let failed = errors > 0 || (strict && warnings > 0);
    LintResult { errors, warnings, issues, failed }
}


// ---------------------------------------------------------------------------
// Merge, remove, rename, copy
// ---------------------------------------------------------------------------

/// What merging kubeconfig files produced.
#[derive(Debug)]
pub struct MergeResult {
    pub files: Vec<String>,
    pub output: Option<String>,
    pub overwrite: bool,
    pub yaml: Option<String>,
}

/// Merges the kubeconfigs read from `files` (those that exist, parsed, in
/// order); there must be at least one file.
pub fn merge_files(files: &[String], configs: &[KubeConfig], overwrite: bool) -> (r: Result<KubeConfig, K8pkError>)
    ensures
        files@.len() == 0 ==> (r matches Err(e) && e.is(ErrorKind::InvalidArgument, "no files specified"@)),
        files@.len() > 0 ==> (r matches Ok(c) && c@ == merged_files(configs_view(configs@), overwrite)),
{
    if files.len() == 0 {
        return Err(K8pkError::InvalidArgument(owned("no files specified")));
    }
    Ok(merge_configs(configs, overwrite))
}

/// What removing contexts did.
#[derive(Debug)]
pub struct RemoveContextResult {
    pub file: String,
    pub removed_contexts: Vec<String>,
    pub removed_clusters: Vec<String>,
    pub removed_users: Vec<String>,
    pub dry_run: bool,
}

/// What renaming a context did.
#[derive(Debug)]
pub struct RenameContextResult {
    pub file: String,
    pub old_name: String,
    pub new_name: String,
    pub dry_run: bool,
}

/// What copying a context did.
#[derive(Debug)]
pub struct CopyContextResult {
    pub from_file: String,
    pub to_file: String,
    pub context: String,
    pub new_name: String,
    pub dry_run: bool,
}

/// The contexts to remove when none are picked interactively: the one named,
/// or an error when none is.
pub fn removal_targets(context: Option<&str>) -> (r: Result<Vec<String>, K8pkError>)
    ensures
        match context {
            Some(c) => r matches Ok(v) && views(v@) == seq![c@],
            None => r matches Err(e) && e.is(ErrorKind::InvalidArgument, "specify --context or --interactive"@),
        },
{
    match context {
        Some(c) => {
            let mut v: Vec<String> = Vec::new();
            v.push(owned(c));
            assert(views(v@) =~= seq![c@]);
            Ok(v)
        },
        None => Err(K8pkError::InvalidArgument(owned("specify --context or --interactive"))),
    }
}

/// The contexts left after removing those named in `to_remove`.
pub open spec fn remaining_contexts(c: KubeConfigView, to_remove: Seq<Seq<char>>) -> Seq<NamedItemView> {
    filter_by(c.contexts, to_remove.to_set(), false)
}

/// The kubeconfig after removing contexts (and, with `remove_orphaned`, the
/// clusters and users that no remaining context names); a dry run changes
/// nothing.
pub open spec fn after_removal(c: KubeConfigView, to_remove: Seq<Seq<char>>, remove_orphaned: bool, dry_run: bool) -> KubeConfigView {
    if dry_run {
        c
    } else {
        let ctxs = remaining_contexts(c, to_remove);
        if remove_orphaned {
            KubeConfigView {
                contexts: ctxs,
                clusters: filter_by(c.clusters, referenced(ctxs, false), true),
                users: filter_by(c.users, referenced(ctxs, true), true),
                ..c
            }
        } else {
            KubeConfigView { contexts: ctxs, ..c }
        }
    }
}

/// Removes the contexts named in `to_remove` from `cfg`, and with
/// `remove_orphaned` the clusters and users that no remaining context names.
/// A dry run changes nothing and reports only the contexts.
pub fn remove_contexts_from_file(
    file_path: &str,
    cfg: &mut KubeConfig,
    to_remove: &[String],
    remove_orphaned: bool,
    dry_run: bool,
) -> (r: RemoveContextResult)
    ensures
        final(cfg)@ == after_removal(old(cfg)@, views(to_remove@), remove_orphaned, dry_run),
        r.file@ == file_path@,
        r.dry_run == dry_run,
        views(r.removed_contexts@) == views(to_remove@),
        views(r.removed_clusters@) == if !dry_run && remove_orphaned {
            names(filter_by(old(cfg)@.clusters, referenced(remaining_contexts(old(cfg)@, views(to_remove@)), false), false))
        } else {
            Seq::empty()
        },
        views(r.removed_users@) == if !dry_run && remove_orphaned {
            names(filter_by(old(cfg)@.users, referenced(remaining_contexts(old(cfg)@, views(to_remove@)), true), false))
        } else {
            Seq::empty()
        },
{
    let mut removed_contexts: Vec<String> = Vec::new();
    let mut i: usize = 0;
    while i < to_remove.len()
        invariant
            i <= to_remove@.len(),
            removed_contexts@.len() == i,
            forall|j: int| 0 <= j < i ==> (#[trigger] removed_contexts@[j])@ == to_remove@[j]@,
        decreases to_remove.len() - i,
    {
        removed_contexts.push(owned(to_remove[i].as_str()));
        i = i + 1;
    }
    assert(views(removed_contexts@) =~= views(to_remove@));
    let mut removed_clusters: Vec<String> = Vec::new();
    let mut removed_users: Vec<String> = Vec::new();
    if !dry_run {
        let keys: Vec<String> = removed_contexts.clone();
        assert(views(keys@) == views(to_remove@));
        let ctxs = filter_items(&cfg.contexts, &keys, false, Ghost(views(to_remove@).to_set()));
        cfg.contexts = ctxs;
        if remove_orphaned {
            let cluster_refs = referenced_names(&cfg.contexts, false);
            let user_refs = referenced_names(&cfg.contexts, true);
            let ghost cs = referenced(cfg@.contexts, false);
            let ghost us = referenced(cfg@.contexts, true);
            let orphan_clusters = filter_items(&cfg.clusters, &cluster_refs, false, Ghost(cs));
            let orphan_users = filter_items(&cfg.users, &user_refs, false, Ghost(us));
            let kept_clusters = filter_items(&cfg.clusters, &cluster_refs, true, Ghost(cs));
            let kept_users = filter_items(&cfg.users, &user_refs, true, Ghost(us));
            removed_clusters = item_names(&orphan_clusters);
            removed_users = item_names(&orphan_users);
            cfg.clusters = kept_clusters;
            cfg.users = kept_users;
        }
    }
    RemoveContextResult {
        file: owned(file_path),
        removed_contexts,
        removed_clusters,
        removed_users,
        dry_run,
    }
}

fn item_names(v: &Vec<NamedItem>) -> (r: Vec<String>)
    ensures
        views(r@) == names(items_view(v@)),
{
    let mut r: Vec<String> = Vec::new();
    let mut i: usize = 0;
    while i < v.len()
        invariant
            i <= v@.len(),
            r@.len() == i,
            forall|j: int| 0 <= j < i ==> (#[trigger] r@[j])@ == v@[j].name@,
        decreases v.len() - i,
    {
        r.push(v[i].name.clone());
        i = i + 1;
    }
    assert(views(r@) =~= names(items_view(v@)));
    r
}

/// The kubeconfig with the first context called `old_name` renamed to
/// `new_name`, and the current context following it.
pub open spec fn renamed(c: KubeConfigView, old_name: Seq<char>, new_name: Seq<char>) -> KubeConfigView {
    let i = find_named(c.contexts, old_name)->0;
    KubeConfigView {
        contexts: c.contexts.update(i, NamedItemView { name: new_name, rest: c.contexts[i].rest }),
        current_context: if c.current_context == Some(old_name) {
            Some(new_name)
        } else {
            c.current_context
        },
        ..c
    }
}

/// Renames a context; fails when no context has the old name. A dry run
/// changes nothing.
pub fn rename_context_in_file(
    file_path: &str,
    cfg: &mut KubeConfig,
    old_name: &str,
    new_name: &str,
    dry_run: bool,
) -> (r: Result<RenameContextResult, K8pkError>)
    ensures
        match find_named(old(cfg)@.contexts, old_name@) {
            Some(_) => r matches Ok(res) && res.file@ == file_path@ && res.old_name@ == old_name@
                && res.new_name@ == new_name@ && res.dry_run == dry_run
                && final(cfg)@ == if dry_run { old(cfg)@ } else { renamed(old(cfg)@, old_name@, new_name@) },
            None => r matches Err(e) && e.is(ErrorKind::ContextNotFound, old_name@) && final(cfg)@ == old(cfg)@,
        },
{
    let i = match find_item(&cfg.contexts, old_name) {
        Some(i) => i,
        None => {
            return Err(K8pkError::ContextNotFound(owned(old_name)));
        },
    };
    if !dry_run {
        let ghost before = cfg@;
        let rest = crate::yaml::copy_value(&cfg.contexts[i].rest);
        cfg.contexts.set(i, NamedItem { name: owned(new_name), rest });
        let is_current = match &cfg.current_context {
            Some(c) => str_eq(c.as_str(), old_name),
            None => false,
        };
        if is_current {
            cfg.current_context = Some(owned(new_name));
        }
        assert(cfg@.contexts =~= renamed(before, old_name@, new_name@).contexts);
    }
    Ok(RenameContextResult {
        file: owned(file_path),
        old_name: owned(old_name),
        new_name: owned(new_name),
        dry_run,
    })
}

/// What copying context `ctx` of `src` into `dest` under `target` gives: the
/// context with its cluster and user replaces any of the same names in
/// `dest`, or the error that stops it.
pub open spec fn copied(src: KubeConfigView, dest: KubeConfigView, ctx: Seq<char>, target: Seq<char>) -> Result<KubeConfigView, (ErrorKind, Seq<char>)> {
    match find_named(src.contexts, ctx) {
        None => Err((ErrorKind::ContextNotFound, ctx)),
        Some(i) => match context_refs(src.contexts[i].rest) {
            Err(m) => Err((ErrorKind::InvalidKubeconfig, m)),
            Ok((cl, us)) => match find_named(src.clusters, cl) {
                None => Err((ErrorKind::ClusterNotFound, cl)),
                Some(j) => match find_named(src.users, us) {
                    None => Err((ErrorKind::UserNotFound, us)),
                    Some(k) => Ok(
                        KubeConfig::with_defaults(
                            KubeConfigView {
                                clusters: drop_named(dest.clusters, cl).push(src.clusters[j]),
                                users: drop_named(dest.users, us).push(src.users[k]),
                                contexts: drop_named(dest.contexts, target).push(
                                    NamedItemView { name: target, rest: src.contexts[i].rest },
                                ),
                                ..dest
                            },
                            None,
                        ),
                    ),
                },
            },
        },
    }
}

/// The name a copied context gets.
pub open spec fn copy_target(context: Seq<char>, new_name: Option<Seq<char>>) -> Seq<char> {
    match new_name {
        Some(n) => n,
        None => context,
    }
}

/// Copies a context, with its cluster and user, from `source` into `dest`
/// (under `new_name` when given). A dry run checks the source and leaves
/// `dest` as it is.
pub fn copy_context_between_files(
    from_file: &str,
    to_file: &str,
    source: &KubeConfig,
    dest: &mut KubeConfig,
    context: &str,
    new_name: Option<&str>,
    dry_run: bool,
) -> (r: Result<CopyContextResult, K8pkError>)
    ensures
        ({
            let target = copy_target(context@, match new_name { Some(n) => Some(n@), None => None });
            match copied(source@, old(dest)@, context@, target) {
                Ok(d) => r matches Ok(res) && res.from_file@ == from_file@ && res.to_file@ == to_file@
                    && res.context@ == context@ && res.new_name@ == target && res.dry_run == dry_run
                    && final(dest)@ == if dry_run { old(dest)@ } else { d },
                Err(p) => r matches Err(e) && (e.kind(), e.detail()) == p && final(dest)@ == old(dest)@,
            }
        }),
{
    let ctx = match source.find_context(context) {
        Some(c) => c,
        None => {
            return Err(K8pkError::ContextNotFound(owned(context)));
        },
    };
    let (cluster_name, user_name) = match extract_context_refs(&ctx.rest) {
        Ok(p) => p,
        Err(e) => {
            return Err(e);
        },
    };
    let cluster = match source.find_cluster(cluster_name.as_str()) {
        Some(c) => c,
        None => {
            return Err(K8pkError::ClusterNotFound(cluster_name));
        },
    };
    let user = match source.find_user(user_name.as_str()) {
        Some(u) => u,
        None => {
            return Err(K8pkError::UserNotFound(user_name));
        },
    };
    let target: &str = match new_name {
        Some(n) => n,
        None => context,
    };
    if !dry_run {
        retain_not_named(&mut dest.clusters, cluster_name.as_str());
        dest.clusters.push(copy_item(cluster));
        retain_not_named(&mut dest.users, user_name.as_str());
        dest.users.push(copy_item(user));
        let new_ctx = NamedItem { name: owned(target), rest: crate::yaml::copy_value(&ctx.rest) };
        retain_not_named(&mut dest.contexts, target);
        dest.contexts.push(new_ctx);
        proof {
            assert(items_view(dest.clusters@) =~= drop_named(old(dest)@.clusters, cluster_name@).push(cluster@));
            assert(items_view(dest.users@) =~= drop_named(old(dest)@.users, user_name@).push(user@));
            assert(items_view(dest.contexts@) =~= drop_named(old(dest)@.contexts, target@).push(
                NamedItemView { name: target@, rest: ctx@.rest },
            ));
        }
        dest.ensure_defaults(None);
    }
    Ok(CopyContextResult {
        from_file: owned(from_file),
        to_file: owned(to_file),
        context: owned(context),
        new_name: owned(target),
        dry_run,
    })
}


// ---------------------------------------------------------------------------
// Cleanup of generated kubeconfigs
// ---------------------------------------------------------------------------

/// What cleaning up generated kubeconfigs did.
#[derive(Debug)]
pub struct CleanupResult {
    pub removed: Vec<String>,
    pub skipped: usize,
    pub dry_run: bool,
    pub all: bool,
    pub orphaned: bool,
    pub from_file: Option<String>,
    pub found: bool,
}

/// What to do with one file of the generated-configs directory.
#[derive(Debug, Clone, Copy, PartialEq, Eq, Structural)]
pub enum CleanupAction {
    /// Not a kubeconfig file: leave it out of the count.
    Ignore,
    /// Keep it.
    Skip,
    /// Remove it.
    Remove,
    /// The decision depends on the file's age: ask again with it.
    NeedsAge,
}

/// The context part of a generated file's name (`{context}.yaml` or
/// `{context}_{namespace}.yaml`), or `None` when it is not a YAML file.
pub open spec fn generated_context(filename: Seq<char>) -> Option<Seq<char>> {
    if has_suffix(filename, ".yaml"@) || has_suffix(filename, ".yml"@) {
        let base = trim_end_seq(trim_end_seq(filename, ".yaml"@), ".yml"@);
        Some(
            match find_char(base, '_') {
                Some(k) => base.subrange(0, k),
                None => base,
            },
        )
    } else {
        None
    }
}

/// The decision for one file: files outside `allowed` are kept when the
/// cleanup is restricted to it; everything else goes with `all`; otherwise a
/// file goes when it is old, or with `orphaned` when its context is not in
/// `allowed`.
pub open spec fn cleanup_step(
    filename: Seq<char>,
    allowed: Seq<Seq<char>>,
    restrict_to_allowed: bool,
    all: bool,
    orphaned: bool,
    is_old: Option<bool>,
) -> CleanupAction {
    match generated_context(filename) {
        None => CleanupAction::Ignore,
        Some(ctx) => if restrict_to_allowed && !allowed.contains(ctx) {
            CleanupAction::Skip
        } else if all {
            CleanupAction::Remove
        } else {
            match is_old {
                None => CleanupAction::NeedsAge,
                Some(old) => if old || (orphaned && !allowed.contains(ctx)) {
                    CleanupAction::Remove
                } else {
                    CleanupAction::Skip
                },
            }
        },
    }
}

fn generated_context_exec(filename: &str) -> (r: Option<String>)
    ensures
        match r {
            Some(c) => generated_context(filename@) == Some(c@),
            None => generated_context(filename@) is None,
        },
{
    if !str_ends_with(filename, ".yaml") && !str_ends_with(filename, ".yml") {
        return None;
    }
    let chars = chars_of(filename);
    let yaml = chars_of(".yaml");
    let yml = chars_of(".yml");
    let t1 = chars_trim_end_seq(&chars, &yaml);
    let base = chars_trim_end_seq(&t1, &yml);
    let mut sep: Vec<char> = Vec::new();
    sep.push('_');
    assert(sep@ =~= seq!['_']);
    let part = match chars_find(&base, &sep) {
        Some(k) => {
            proof {
                crate::text::lemma_find_from(base@, sep@, 0);
            }
            chars_sub(&base, 0, k)
        },
        None => base,
    };
    Some(string_of(&part))
}

/// The names of `v` made safe for file names.
pub fn sanitize_all(v: &[String]) -> (r: Vec<String>)
    ensures
        r@.len() == v@.len(),
        forall|i: int| 0 <= i < v@.len() ==> (#[trigger] r@[i])@ == sanitized(v@[i]@),
{
    let mut r: Vec<String> = Vec::new();
    let mut i: usize = 0;
    while i < v.len()
        invariant
            i <= v@.len(),
            r@.len() == i,
            forall|j: int| 0 <= j < i ==> (#[trigger] r@[j])@ == sanitized(v@[j]@),
        decreases v.len() - i,
    {
        r.push(sanitize_filename(v[i].as_str()));
        i = i + 1;
    }
    r
}

/// Decides what to do with one generated kubeconfig file; `allowed` holds
/// the sanitized names of the contexts that still exist.
pub fn cleanup_action(
    filename: &str,
    allowed: &[String],
    restrict_to_allowed: bool,
    all: bool,
    orphaned: bool,
    is_old: Option<bool>,
) -> (r: CleanupAction)
    ensures
        r == cleanup_step(filename@, views(allowed@), restrict_to_allowed, all, orphaned, is_old),
{
    let ctx = match generated_context_exec(filename) {
        Some(c) => c,
        None => {
            return CleanupAction::Ignore;
        },
    };
    let known = contains_str(allowed, ctx.as_str());
    if restrict_to_allowed && !known {
        return CleanupAction::Skip;
    }
    if all {
        return CleanupAction::Remove;
    }
    match is_old {
        None => CleanupAction::NeedsAge,
        Some(old) => if old || (orphaned && !known) {
            CleanupAction::Remove
        } else {
            CleanupAction::Skip
        },
    }
}

} // verus!

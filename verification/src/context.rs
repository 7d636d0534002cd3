//! Context switching: the switch history, matching contexts by pattern, the
//! isolated kubeconfig of a context, hooks, and the shell text that applies
//! or clears a context.

use vstd::prelude::*;
use crate::config::{HooksSection, K8pkConfig};
use crate::error::{ErrorKind, K8pkError};
use crate::kubeconfig::{
    find_named, opt_str, prune_to_context, pruned, sanitize_filename, sanitized,
    set_context_namespace, with_namespace, KubeConfig, KubeConfigView, NamedItemView,
    insecure_clusters, set_cluster_insecure,
};
use crate::kubeconfig_ops::{contains_str, lemma_contains_push};
use crate::login::opt_view;
use crate::state::CurrentState;
use crate::strmap::StrMap;
use crate::text::{
    concat, contains_seq, has_prefix, has_suffix, lowercase, owned, str_contains, str_ends_with, str_eq,
    to_lowercase, views,
};

verus! {

// ---------------------------------------------------------------------------
// History
// ---------------------------------------------------------------------------

/// The longest history kept.
pub const MAX_HISTORY: usize = 10;

/// Context and namespace switch history, newest first, and the cluster type
/// stored for contexts whose name does not tell it.
#[derive(Debug)]
pub struct History {
    pub context_history: Vec<String>,
    pub namespace_history: Vec<String>,
    /// Context name -> cluster type for re-login: "ocp", "rancher", "gke", "k8s".
    pub context_types: StrMap<String>,
}

impl Default for History {
    fn default() -> (r: History)
        ensures
            r.context_history@.len() == 0,
            r.namespace_history@.len() == 0,
            r.context_types.wf(),
            r.context_types@ == Map::<Seq<char>, Seq<char>>::empty(),
    {
        History { context_history: Vec::new(), namespace_history: Vec::new(), context_types: StrMap::new() }
    }
}

/// A history with `x` recorded: put first unless it already is first, and
/// cut to the longest history kept.
pub open spec fn recorded(h: Seq<Seq<char>>, x: Seq<char>) -> Seq<Seq<char>> {
    if h.len() > 0 && h[0] == x {
        h
    } else if h.len() + 1 > 10 {
        (seq![x] + h).subrange(0, 10)
    } else {
        seq![x] + h
    }
}

fn record_in(v: &mut Vec<String>, x: &str)
    ensures
        views(final(v)@) == recorded(views(old(v)@), x@),
{
    let first_is_x = v.len() > 0 && str_eq(v[0].as_str(), x);
    if !first_is_x {
        let ghost before = views(v@);
        v.insert(0, owned(x));
        assert(views(v@) =~= seq![x@] + before);
        let ghost mid = views(v@);
        v.truncate(MAX_HISTORY);
        assert(views(v@) =~= if mid.len() > 10 { mid.subrange(0, 10) } else { mid });
    }
}

impl History {
    /// Records a switch to `context` (and `namespace`, when given).
    pub fn record(&mut self, context: &str, namespace: Option<&str>)
        ensures
            views(final(self).context_history@) == recorded(views(old(self).context_history@), context@),
            views(final(self).namespace_history@) == match namespace {
                Some(ns) => recorded(views(old(self).namespace_history@), ns@),
                None => views(old(self).namespace_history@),
            },
            final(self).context_types == old(self).context_types,
    {
        record_in(&mut self.context_history, context);
        if let Some(ns) = namespace {
            record_in(&mut self.namespace_history, ns);
        }
    }

    /// Stores the cluster type of a context.
    pub fn set_context_type(&mut self, context: &str, type_str: &str)
        requires
            old(self).context_types.wf(),
        ensures
            final(self).context_types.wf(),
            final(self).context_types@ == old(self).context_types@.insert(context@, type_str@),
            final(self).context_history == old(self).context_history,
            final(self).namespace_history == old(self).namespace_history,
    {
        self.context_types.insert(owned(context), owned(type_str));
    }
}

fn copy_strings(v: &Vec<String>) -> (r: Vec<String>)
    ensures
        views(r@) == views(v@),
{
    let mut r: Vec<String> = Vec::new();
    let mut i: usize = 0;
    while i < v.len()
        invariant
            i <= v@.len(),
            r@.len() == i,
            forall|j: int| 0 <= j < i ==> (#[trigger] r@[j])@ == v@[j]@,
        decreases v.len() - i,
    {
        r.push(owned(v[i].as_str()));
        i = i + 1;
    }
    assert(views(r@) =~= views(v@));
    r
}

/// The context and namespace switch histories.
pub fn get_history(h: &History) -> (r: (Vec<String>, Vec<String>))
    ensures
        views(r.0@) == views(h.context_history@),
        views(r.1@) == views(h.namespace_history@),
{
    (copy_strings(&h.context_history), copy_strings(&h.namespace_history))
}

/// The second entry of a history: the one before the current.
pub open spec fn previous(h: Seq<Seq<char>>) -> Option<Seq<char>> {
    if h.len() > 1 {
        Some(h[1])
    } else {
        None
    }
}

fn second(v: &Vec<String>) -> (r: Option<String>)
    ensures
        opt_str(r) == previous(views(v@)),
{
    if v.len() > 1 {
        Some(owned(v[1].as_str()))
    } else {
        None
    }
}

/// The previous context.
pub fn get_previous_context(h: &History) -> (r: Option<String>)
    ensures
        opt_str(r) == previous(views(h.context_history@)),
{
    second(&h.context_history)
}

/// The previous namespace.
pub fn get_previous_namespace(h: &History) -> (r: Option<String>)
    ensures
        opt_str(r) == previous(views(h.namespace_history@)),
{
    second(&h.namespace_history)
}

/// The cluster type stored for a context.
pub fn get_context_type(h: &History, context: &str) -> (r: Option<String>)
    requires
        h.context_types.wf(),
    ensures
        opt_str(r) == (if h.context_types@.contains_key(context@) {
            Some(h.context_types@[context@])
        } else {
            None
        }),
{
    match h.context_types.get(context) {
        Some(t) => Some(owned(t.as_str())),
        None => None,
    }
}

// ---------------------------------------------------------------------------
// Matching contexts by pattern
// ---------------------------------------------------------------------------

/// Whether globset builds a matcher for `pattern`: `Glob::new` accepts it
/// and `GlobSet::new` compiles it.
pub uninterp spec fn glob_valid(pattern: Seq<char>) -> bool;

/// Whether the matcher globset builds for `pattern` matches `text`.
pub uninterp spec fn glob_match(pattern: Seq<char>, text: Seq<char>) -> bool;

/// The longest glob pattern matched, in characters.
pub const MAX_GLOB_CHARS: usize = 0x1000_0000;

/// A glob the library matches with: not longer than `MAX_GLOB_CHARS`, and one
/// that globset builds a matcher for.
pub open spec fn glob_ok(pattern: Seq<char>) -> bool {
    pattern.len() <= MAX_GLOB_CHARS && glob_valid(pattern)
}

/// Matches `text` against a glob; calls globset's `Glob::new`, then
/// `GlobSet::new` on that one glob, then the set's `is_match`. `None` when
/// either call returns an error (what succeeds is named `glob_valid`);
/// otherwise whether the set matches (named `glob_match`). Both calls report
/// a pattern they cannot compile as an error, not a panic; the literal
/// matchers built on the way unwrap their construction, which fails only
/// for literals over 2 GiB, so the pattern's length is bounded.
#[verifier::external_body]
fn glob_is_match(pattern: &str, text: &str) -> (r: Option<bool>)
    requires
        pattern@.len() <= MAX_GLOB_CHARS,
    ensures
        match r {
            Some(b) => glob_valid(pattern@) && b == glob_match(pattern@, text@),
            None => !glob_valid(pattern@),
        },
{
    match globset::Glob::new(pattern) {
        Ok(g) => match globset::GlobSet::new([g]) {
            Ok(set) => Some(set.is_match(text)),
            Err(_) => None,
        },
        Err(_) => None,
    }
}

/// Matches `text` against a glob: `None` when the pattern is too long or
/// globset cannot build a matcher for it, else whether it matches.
pub(crate) fn glob_test(pattern: &str, text: &str) -> (r: Option<bool>)
    ensures
        match r {
            Some(b) => glob_ok(pattern@) && b == glob_match(pattern@, text@),
            None => !glob_ok(pattern@),
        },
{
    if pattern.unicode_len() > MAX_GLOB_CHARS {
        None
    } else {
        glob_is_match(pattern, text)
    }
}

/// The pattern has glob metacharacters.
pub open spec fn is_glob(p: Seq<char>) -> bool {
    contains_seq(p, "*"@) || contains_seq(p, "?"@) || contains_seq(p, "["@)
}

/// The contexts that a glob matches, in order.
pub open spec fn glob_hits(p: Seq<char>, cs: Seq<Seq<char>>) -> Seq<Seq<char>>
    decreases cs.len(),
{
    if cs.len() == 0 {
        Seq::empty()
    } else {
        let r = glob_hits(p, cs.drop_last());
        if glob_match(p, cs.last()) {
            r.push(cs.last())
        } else {
            r
        }
    }
}

/// The contexts that hold `p` case-insensitively, in order.
pub open spec fn substring_hits(p: Seq<char>, cs: Seq<Seq<char>>) -> Seq<Seq<char>>
    decreases cs.len(),
{
    if cs.len() == 0 {
        Seq::empty()
    } else {
        let r = substring_hits(p, cs.drop_last());
        if contains_seq(lowercase(cs.last()), lowercase(p)) {
            r.push(cs.last())
        } else {
            r
        }
    }
}

/// The contexts a pattern selects: the context of that exact name if there is
/// one (for any pattern); else, for a glob, those it matches (none when the
/// glob is invalid), and for a plain pattern those containing it
/// case-insensitively.
pub open spec fn pattern_matches(p: Seq<char>, cs: Seq<Seq<char>>) -> Seq<Seq<char>> {
    if cs.contains(p) {
        seq![p]
    } else if is_glob(p) {
        if glob_ok(p) {
            glob_hits(p, cs)
        } else {
            Seq::empty()
        }
    } else {
        substring_hits(p, cs)
    }
}

/// Matches contexts by pattern: exact name, glob, or case-insensitive
/// substring.
pub fn match_pattern(pattern: &str, contexts: &[String]) -> (r: Vec<String>)
    ensures
        views(r@) == pattern_matches(pattern@, views(contexts@)),
{
    let ghost cv = views(contexts@);
    let glob = str_contains(pattern, "*") || str_contains(pattern, "?") || str_contains(pattern, "[");
    let mut out: Vec<String> = Vec::new();
    if contains_str(contexts, pattern) {
        out.push(owned(pattern));
        assert(views(out@) =~= seq![pattern@]);
        return out;
    }
    if glob && glob_test(pattern, pattern).is_none() {
        assert(views(out@) =~= Seq::<Seq<char>>::empty());
        return out;
    }
    let lower_pattern = to_lowercase(pattern);
    let mut i: usize = 0;
    assert(cv.take(0) =~= Seq::<Seq<char>>::empty());
    assert(views(out@) =~= Seq::<Seq<char>>::empty());
    while i < contexts.len()
        invariant
            i <= contexts@.len(),
            cv == views(contexts@),
            glob == is_glob(pattern@),
            lower_pattern@ == lowercase(pattern@),
            glob ==> glob_ok(pattern@) && views(out@) == glob_hits(pattern@, cv.take(i as int)),
            !glob ==> views(out@) == substring_hits(pattern@, cv.take(i as int)),
        decreases contexts.len() - i,
    {
        assert(cv.take(i + 1).drop_last() =~= cv.take(i as int));
        assert(cv.take(i + 1).last() == contexts@[i as int]@);
        let c = contexts[i].as_str();
        let hit = if glob {
            match glob_test(pattern, c) {
                Some(b) => b,
                None => {
                    let empty: Vec<String> = Vec::new();
                    assert(views(empty@) =~= Seq::<Seq<char>>::empty());
                    return empty;
                },
            }
        } else {
            let lc = to_lowercase(c);
            str_contains(lc.as_str(), lower_pattern.as_str())
        };
        if hit {
            let ghost before = views(out@);
            out.push(owned(c));
            assert(views(out@) =~= before.push(c@));
        }
        i = i + 1;
    }
    assert(cv.take(contexts.len() as int) =~= cv);
    out
}


// ---------------------------------------------------------------------------
// The isolated kubeconfig of a context
// ---------------------------------------------------------------------------

/// The file name of a context's isolated kubeconfig: `{context}.yaml`, or
/// `{context}_{namespace}.yaml` for a non-empty namespace, both made
/// file-safe.
pub open spec fn isolated_name(context: Seq<char>, namespace: Option<Seq<char>>) -> Seq<char> {
    let ns = match namespace {
        Some(n) => sanitized(n),
        None => Seq::empty(),
    };
    if ns.len() == 0 {
        sanitized(context) + ".yaml"@
    } else {
        sanitized(context) + "_"@ + ns + ".yaml"@
    }
}

/// The file name of a context's isolated kubeconfig.
pub fn isolated_file_name(context: &str, namespace: Option<&str>) -> (r: String)
    ensures
        r@ == isolated_name(context@, opt_view(namespace)),
{
    let ctx = sanitize_filename(context);
    let ns = match namespace {
        Some(n) => sanitize_filename(n),
        None => owned(""),
    };
    proof {
        reveal_strlit("");
    }
    let ns_empty = crate::text::chars_of(ns.as_str()).len() == 0;
    if ns_empty {
        concat(ctx.as_str(), ".yaml")
    } else {
        concat(concat(concat(ctx.as_str(), "_").as_str(), ns.as_str()).as_str(), ".yaml")
    }
}

/// A context's isolated kubeconfig: the merged kubeconfig pruned to the
/// context, with the namespace set when given; or the error of pruning.
pub open spec fn isolated(merged: KubeConfigView, context: Seq<char>, namespace: Option<Seq<char>>) -> Result<KubeConfigView, (ErrorKind, Seq<char>)> {
    match pruned(merged, context) {
        Err(e) => Err(e),
        Ok(p) => Ok(
            match namespace {
                Some(ns) => KubeConfigView {
                    contexts: p.contexts.update(
                        0,
                        NamedItemView { name: p.contexts[0].name, rest: with_namespace(p.contexts[0].rest, ns) },
                    ),
                    ..p
                },
                None => p,
            },
        ),
    }
}

/// Whether a file of the isolated kubeconfig directory belongs to a context:
/// its name starts with the context's file-safe name and ends in `.yaml`.
pub fn is_isolated_file_of(file_name: &str, context: &str) -> (r: bool)
    ensures
        r == (has_prefix(file_name@, sanitized(context@)) && has_suffix(file_name@, ".yaml"@)),
{
    let prefix = sanitize_filename(context);
    crate::text::str_starts_with(file_name, prefix.as_str()) && crate::text::str_ends_with(file_name, ".yaml")
}

/// Builds a context's isolated kubeconfig.
pub fn isolated_kubeconfig(merged: &KubeConfig, context: &str, namespace: Option<&str>) -> (r: Result<KubeConfig, K8pkError>)
    ensures
        match r {
            Ok(c) => isolated(merged@, context@, opt_view(namespace)) == Ok::<KubeConfigView, (ErrorKind, Seq<char>)>(c@),
            Err(e) => isolated(merged@, context@, opt_view(namespace)) == Err::<KubeConfigView, (ErrorKind, Seq<char>)>((e.kind(), e.detail())),
        },
{
    let mut p = match prune_to_context(merged, context) {
        Ok(p) => p,
        Err(e) => {
            return Err(e);
        },
    };
    if let Some(ns) = namespace {
        proof {
            crate::kubeconfig::lemma_find_named(merged@.contexts, context@);
            assert(p@.contexts.len() == 1);
            assert(p@.contexts[0].name == context@);
            crate::kubeconfig::lemma_find_named_exact(p@.contexts, context@, 0);
        }
        match set_context_namespace(&mut p, context, ns) {
            Ok(()) => {},
            Err(e) => {
                return Err(e);
            },
        }
    }
    Ok(p)
}

/// Whether an `insecure_contexts` entry selects a context: the context's own
/// name, or a glob (that globset accepts) matching it.
pub open spec fn pattern_selects(p: Seq<char>, ctx: Seq<char>) -> bool {
    p == ctx || (is_glob(p) && glob_ok(p) && glob_match(p, ctx))
}

/// Whether some entry of the list selects the context.
pub open spec fn any_selects(ps: Seq<Seq<char>>, ctx: Seq<char>) -> bool {
    exists|i: int| 0 <= i < ps.len() && #[trigger] pattern_selects(ps[i], ctx)
}

/// Whether the config lists a context as reached without TLS verification.
pub open spec fn listed_insecure(pats: Option<Seq<Seq<char>>>, ctx: Seq<char>) -> bool {
    match pats {
        Some(ps) => any_selects(ps, ctx),
        None => false,
    }
}

/// The config's `insecure_contexts` entries, as text.
pub open spec fn insecure_patterns(config: K8pkConfig) -> Option<Seq<Seq<char>>> {
    match config.insecure_contexts {
        Some(v) => Some(views(v@)),
        None => None,
    }
}

/// An entry that selects the context makes it listed.
proof fn lemma_listed(ps: Seq<Seq<char>>, ctx: Seq<char>, k: int)
    requires
        0 <= k < ps.len(),
        pattern_selects(ps[k], ctx),
    ensures
        listed_insecure(Some(ps), ctx),
{
    assert(any_selects(ps, ctx));
}

/// Whether the config's `insecure_contexts` selects the context.
pub fn is_context_insecure(config: &K8pkConfig, context: &str) -> (r: bool)
    ensures
        r == listed_insecure(insecure_patterns(*config), context@),
{
    let pats = match &config.insecure_contexts {
        Some(v) => v,
        None => {
            return false;
        },
    };
    let ghost ps = views(pats@);
    assert(insecure_patterns(*config) == Some(ps));
    let mut i: usize = 0;
    while i < pats.len()
        invariant
            i <= pats@.len(),
            ps == views(pats@),
            insecure_patterns(*config) == Some(ps),
            forall|j: int| 0 <= j < i ==> !pattern_selects(#[trigger] ps[j], context@),
        decreases pats.len() - i,
    {
        let p = pats[i].as_str();
        let hit = if str_eq(p, context) {
            true
        } else if str_contains(p, "*") || str_contains(p, "?") || str_contains(p, "[") {
            match glob_test(p, context) {
                Some(b) => b,
                None => false,
            }
        } else {
            false
        };
        if hit {
            proof {
                assert(ps[i as int] == pats@[i as int]@);
                lemma_listed(ps, context@, i as int);
            }
            return true;
        }
        i = i + 1;
    }
    false
}

/// A context's isolated kubeconfig, with TLS verification turned off for
/// every cluster when `insecure` is set (a context the config lists in
/// `insecure_contexts`).
pub fn isolated_kubeconfig_for(merged: &KubeConfig, context: &str, namespace: Option<&str>, insecure: bool) -> (r: Result<KubeConfig, K8pkError>)
    ensures
        match r {
            Ok(c) => match isolated(merged@, context@, opt_view(namespace)) {
                Ok(v) => c@ == (if insecure { insecure_clusters(v) } else { v }),
                Err(_) => false,
            },
            Err(e) => isolated(merged@, context@, opt_view(namespace)) == Err::<KubeConfigView, (ErrorKind, Seq<char>)>((e.kind(), e.detail())),
        },
{
    let mut c = match isolated_kubeconfig(merged, context, namespace) {
        Ok(c) => c,
        Err(e) => {
            return Err(e);
        },
    };
    if insecure {
        set_cluster_insecure(&mut c);
    }
    Ok(c)
}

/// The parent of a path, as std's `Path::parent` gives it.
pub uninterp spec fn path_parent(p: Seq<char>) -> Option<Seq<char>>;

/// A path joined with another, as std's `Path::join` gives it.
pub uninterp spec fn path_join(base: Seq<char>, p: Seq<char>) -> Seq<char>;

/// The parent directory of a path; calls std's `Path::parent`, whose result
/// is named `path_parent`.
#[verifier::external_body]
pub(crate) fn parent_of(p: &str) -> (r: Option<String>)
    ensures
        opt_str(r) == path_parent(p@),
{
    std::path::Path::new(p).parent().map(|q| q.to_string_lossy().into_owned())
}

/// Joins two paths; calls std's `Path::join`, whose result is named `path_join`.
pub(crate) fn join_path_exec(base: &str, p: &str) -> (r: String)
    ensures
        r@ == path_join(base@, p@),
        p@.len() > 0 && p@[0] == '/' ==> r@ == p@,
        !(p@.len() > 0 && p@[0] == '/') && base@.len() > 0 && base@.last() != '/' ==> r@ == base@ + "/"@ + p@,
{
    join_path(base, p)
}

/// Calls std's `Path::join`. Its documentation (with `PathBuf::push`) says
/// that an absolute path (on Unix, one starting with `/`) replaces the base,
/// and that a relative one extends it after a separator; the contract states
/// that much, for a base that is not empty and does not end in `/`, and names
/// the rest `path_join`.
#[verifier::external_body]
fn join_path(base: &str, p: &str) -> (r: String)
    ensures
        r@ == path_join(base@, p@),
        p@.len() > 0 && p@[0] == '/' ==> r@ == p@,
        !(p@.len() > 0 && p@[0] == '/') && base@.len() > 0 && base@.last() != '/' ==> r@ == base@ + "/"@ + p@,
{
    std::path::Path::new(base).join(p).to_string_lossy().into_owned()
}

/// The per-context cache directory beside an isolated kubeconfig:
/// `{dir}/cache/{context}`, with `/tmp` when the path has no parent.
pub open spec fn cache_dir_of(kubeconfig: Seq<char>, context: Seq<char>) -> Seq<char> {
    let dir = match path_parent(kubeconfig) {
        Some(d) => d,
        None => "/tmp"@,
    };
    path_join(path_join(dir, "cache"@), sanitized(context))
}

/// Per-context kubectl/oc cache directory.
pub fn isolated_cache_dir(kubeconfig: &str, context: &str) -> (r: String)
    ensures
        r@ == cache_dir_of(kubeconfig@, context@),
{
    let dir = match parent_of(kubeconfig) {
        Some(d) => d,
        None => owned("/tmp"),
    };
    let cache = join_path_exec(dir.as_str(), "cache");
    join_path_exec(cache.as_str(), sanitize_filename(context).as_str())
}

// ---------------------------------------------------------------------------
// Hooks
// ---------------------------------------------------------------------------

/// One run of a hook command, with the environment it gets.
#[derive(Debug)]
pub struct HookCall {
    pub command: String,
    /// `start` or `stop`.
    pub phase: String,
    pub context: String,
    pub namespace: String,
}

/// The content of a hook run: command, phase, context, namespace.
pub open spec fn hook_view(h: HookCall) -> (Seq<char>, Seq<char>, Seq<char>, Seq<char>) {
    (h.command@, h.phase@, h.context@, h.namespace@)
}

/// The hooks to run, in order, when switching from the state `prior` to
/// `new_context`: none without hooks or when the context stays the same;
/// else the stop hook for the old context (if any) and the start hook for
/// the new one.
pub open spec fn eval_hooks(
    hooks: Option<HooksSection>,
    prior_context: Option<Seq<char>>,
    prior_namespace: Option<Seq<char>>,
    new_context: Seq<char>,
    new_namespace: Option<Seq<char>>,
) -> Seq<(Seq<char>, Seq<char>, Seq<char>, Seq<char>)> {
    match hooks {
        None => Seq::empty(),
        Some(h) => if prior_context == Some(new_context) {
            Seq::empty()
        } else {
            (match (prior_context, h.stop_ctx) {
                (Some(old), Some(stop)) => seq![
                    (stop@, "stop"@, old, match prior_namespace {
                        Some(n) => n,
                        None => Seq::empty(),
                    }),
                ],
                _ => Seq::empty(),
            }) + match h.start_ctx {
                Some(start) => seq![
                    (start@, "start"@, new_context, match new_namespace {
                        Some(n) => n,
                        None => Seq::empty(),
                    }),
                ],
                None => Seq::empty(),
            }
        },
    }
}

fn or_empty(o: &Option<String>) -> (r: String)
    ensures
        r@ == match opt_str(*o) {
            Some(s) => s,
            None => Seq::<char>::empty(),
        },
{
    proof {
        reveal_strlit("");
    }
    match o {
        Some(s) => owned(s.as_str()),
        None => owned(""),
    }
}

/// Decides which hooks an eval-based context switch runs.
pub fn run_eval_hooks(
    hooks: Option<&HooksSection>,
    prior: &CurrentState,
    new_context: &str,
    new_namespace: Option<&str>,
) -> (r: Vec<HookCall>)
    ensures
        r@.map_values(|h: HookCall| hook_view(h)) == eval_hooks(
            match hooks {
                Some(h) => Some(*h),
                None => None,
            },
            opt_str(prior.context),
            opt_str(prior.namespace),
            new_context@,
            opt_view(new_namespace),
        ),
{
    let mut r: Vec<HookCall> = Vec::new();
    let h = match hooks {
        Some(h) => h,
        None => {
            assert(r@.map_values(|h: HookCall| hook_view(h)) =~= Seq::empty());
            return r;
        },
    };
    let same = match &prior.context {
        Some(c) => str_eq(c.as_str(), new_context),
        None => false,
    };
    if same {
        assert(r@.map_values(|h: HookCall| hook_view(h)) =~= Seq::empty());
        return r;
    }
    let ghost stop_part: Seq<(Seq<char>, Seq<char>, Seq<char>, Seq<char>)> = match (opt_str(prior.context), opt_str(h.stop_ctx)) {
        (Some(old), Some(stop)) => seq![
            (stop, "stop"@, old, match opt_str(prior.namespace) {
                Some(n) => n,
                None => Seq::<char>::empty(),
            }),
        ],
        _ => Seq::empty(),
    };
    if let Some(old) = &prior.context {
        if let Some(stop) = &h.stop_ctx {
            r.push(HookCall {
                command: owned(stop.as_str()),
                phase: owned("stop"),
                context: owned(old.as_str()),
                namespace: or_empty(&prior.namespace),
            });
        }
    }
    assert(r@.map_values(|h: HookCall| hook_view(h)) =~= stop_part);
    let ghost start_part: Seq<(Seq<char>, Seq<char>, Seq<char>, Seq<char>)> = match opt_str(h.start_ctx) {
        Some(start) => seq![
            (start, "start"@, new_context@, match opt_view(new_namespace) {
                Some(n) => n,
                None => Seq::<char>::empty(),
            }),
        ],
        None => Seq::empty(),
    };
    if let Some(start) = &h.start_ctx {
        let ns = match new_namespace {
            Some(n) => owned(n),
            None => owned(""),
        };
        proof {
            reveal_strlit("");
            assert(""@ =~= Seq::<char>::empty());
        }
        assert(ns@ == match opt_view(new_namespace) {
            Some(n) => n,
            None => Seq::<char>::empty(),
        });
        let ghost before = r@;
        r.push(HookCall { command: owned(start.as_str()), phase: owned("start"), context: owned(new_context), namespace: ns });
        assert(r@.map_values(|h: HookCall| hook_view(h)) =~= before.map_values(|h: HookCall| hook_view(h)).push(
            hook_view(r@.last()),
        ));
    }
    assert(r@.map_values(|h: HookCall| hook_view(h)) =~= stop_part + start_part);
    assert(opt_str(prior.context) != Some(new_context@));
    assert(r@.map_values(|h: HookCall| hook_view(h)) =~= eval_hooks(
        Some(*h),
        opt_str(prior.context),
        opt_str(prior.namespace),
        new_context@,
        opt_view(new_namespace),
    ));
    r
}

/// Decides whether leaving a session (`k8pk clean`) runs the stop hook:
/// only with a stop hook and a current context.
pub fn run_stop_hook_before_clean(hooks: Option<&HooksSection>, prior: &CurrentState) -> (r: Option<HookCall>)
    ensures
        match (hooks, opt_str(prior.context)) {
            (Some(h), Some(ctx)) => match h.stop_ctx {
                Some(stop) => r matches Some(c) && hook_view(c) == (stop@, "stop"@, ctx, match opt_str(prior.namespace) {
                    Some(n) => n,
                    None => Seq::<char>::empty(),
                }),
                None => r is None,
            },
            _ => r is None,
        },
{
    let h = match hooks {
        Some(h) => h,
        None => {
            return None;
        },
    };
    let stop = match &h.stop_ctx {
        Some(s) => s,
        None => {
            return None;
        },
    };
    let ctx = match &prior.context {
        Some(c) => c,
        None => {
            return None;
        },
    };
    Some(HookCall {
        command: owned(stop.as_str()),
        phase: owned("stop"),
        context: owned(ctx.as_str()),
        namespace: or_empty(&prior.namespace),
    })
}

// ---------------------------------------------------------------------------
// Shell text
// ---------------------------------------------------------------------------

/// The shell kind from the environment: fish when `FISH_VERSION` is set or
/// `SHELL` ends in `/fish` (or `\fish`), else bash.
pub open spec fn shell_kind(fish_version_set: bool, shell: Option<Seq<char>>) -> Seq<char> {
    if fish_version_set {
        "fish"@
    } else {
        match shell {
            Some(s) => if has_suffix(s, "/fish"@) || has_suffix(s, "\\fish"@) {
                "fish"@
            } else {
                "bash"@
            },
            None => "bash"@,
        }
    }
}

/// Detects the current shell type from the environment.
pub fn detect_shell(fish_version_set: bool, shell: Option<&str>) -> (r: &'static str)
    ensures
        r@ == shell_kind(fish_version_set, opt_view(shell)),
{
    if fish_version_set {
        return "fish";
    }
    if let Some(s) = shell {
        if str_ends_with(s, "/fish") || str_ends_with(s, "\\fish") {
            return "fish";
        }
    }
    "bash"
}

/// The commands that apply a context in the current shell (depth 1, a
/// fresh session): fish `set -gx` or POSIX `export` lines.
pub open spec fn exports_text(
    shell: Seq<char>,
    kubeconfig: Seq<char>,
    cache_dir: Seq<char>,
    context: Seq<char>,
    display: Seq<char>,
    namespace: Option<Seq<char>>,
) -> Seq<char> {
    if shell == "fish"@ {
        "set -gx KUBECONFIG \""@ + kubeconfig + "\";\nset -gx KUBECACHEDIR \""@ + cache_dir
            + "\";\nset -gx K8PK_CONTEXT \""@ + context + "\";\nset -gx K8PK_CONTEXT_DISPLAY \""@ + display
            + "\";\nset -gx K8PK_DEPTH 1;\n"@ + match namespace {
            Some(ns) => "set -gx K8PK_NAMESPACE \""@ + ns + "\";\nset -gx OC_NAMESPACE \""@ + ns + "\";\n"@,
            None => Seq::empty(),
        }
    } else {
        "export KUBECONFIG=\""@ + kubeconfig + "\";\nexport KUBECACHEDIR=\""@ + cache_dir
            + "\";\nexport K8PK_CONTEXT=\""@ + context + "\";\nexport K8PK_CONTEXT_DISPLAY=\""@ + display
            + "\";\nexport K8PK_DEPTH=1;\n"@ + match namespace {
            Some(ns) => "export K8PK_NAMESPACE=\""@ + ns + "\";\nexport OC_NAMESPACE=\""@ + ns + "\";\n"@,
            None => Seq::empty(),
        }
    }
}

fn cat3(a: &str, b: &str, c: &str) -> (r: String)
    ensures
        r@ == a@ + b@ + c@,
{
    concat(concat(a, b).as_str(), c)
}

/// Builds the commands that apply a context in the current shell.
pub fn env_exports(
    shell: &str,
    kubeconfig: &str,
    cache_dir: &str,
    context: &str,
    display: &str,
    namespace: Option<&str>,
) -> (r: String)
    ensures
        r@ == exports_text(shell@, kubeconfig@, cache_dir@, context@, display@, opt_view(namespace)),
{
    let fish = str_eq(shell, "fish");
    let mut s: String;
    if fish {
        s = cat3("set -gx KUBECONFIG \"", kubeconfig, "\";\nset -gx KUBECACHEDIR \"");
        s = cat3(s.as_str(), cache_dir, "\";\nset -gx K8PK_CONTEXT \"");
        s = cat3(s.as_str(), context, "\";\nset -gx K8PK_CONTEXT_DISPLAY \"");
        s = cat3(s.as_str(), display, "\";\nset -gx K8PK_DEPTH 1;\n");
        if let Some(ns) = namespace {
            s = cat3(s.as_str(), "set -gx K8PK_NAMESPACE \"", ns);
            s = cat3(s.as_str(), "\";\nset -gx OC_NAMESPACE \"", ns);
            s = concat(s.as_str(), "\";\n");
        }
    } else {
        s = cat3("export KUBECONFIG=\"", kubeconfig, "\";\nexport KUBECACHEDIR=\"");
        s = cat3(s.as_str(), cache_dir, "\";\nexport K8PK_CONTEXT=\"");
        s = cat3(s.as_str(), context, "\";\nexport K8PK_CONTEXT_DISPLAY=\"");
        s = cat3(s.as_str(), display, "\";\nexport K8PK_DEPTH=1;\n");
        if let Some(ns) = namespace {
            s = cat3(s.as_str(), "export K8PK_NAMESPACE=\"", ns);
            s = cat3(s.as_str(), "\";\nexport OC_NAMESPACE=\"", ns);
            s = concat(s.as_str(), "\";\n");
        }
    }
    proof {
        assert(s@ =~= exports_text(shell@, kubeconfig@, cache_dir@, context@, display@, opt_view(namespace)));
    }
    s
}

/// The commands that leave a k8pk session in the current shell: point
/// `KUBECONFIG` at `/dev/null`, unset the k8pk variables and deregister.
pub open spec fn exit_text(fish: bool) -> Seq<char> {
    if fish {
        "set -gx KUBECONFIG \"/dev/null\";\nset -e KUBECACHEDIR;\nset -e K8PK_CONTEXT;\nset -e K8PK_CONTEXT_DISPLAY;\nset -e K8PK_NAMESPACE;\nset -e K8PK_DEPTH;\nset -e OC_NAMESPACE;\nk8pk sessions deregister 2>/dev/null; or true;\n"@
    } else {
        "export KUBECONFIG=\"/dev/null\";\nunset KUBECACHEDIR;\nunset K8PK_CONTEXT;\nunset K8PK_CONTEXT_DISPLAY;\nunset K8PK_NAMESPACE;\nunset K8PK_DEPTH;\nunset OC_NAMESPACE;\nk8pk sessions deregister 2>/dev/null || true;\n"@
    }
}

/// Builds the commands that leave a k8pk session.
pub fn exit_commands(fish: bool) -> (r: String)
    ensures
        r@ == exit_text(fish),
{
    if fish {
        owned("set -gx KUBECONFIG \"/dev/null\";\nset -e KUBECACHEDIR;\nset -e K8PK_CONTEXT;\nset -e K8PK_CONTEXT_DISPLAY;\nset -e K8PK_NAMESPACE;\nset -e K8PK_DEPTH;\nset -e OC_NAMESPACE;\nk8pk sessions deregister 2>/dev/null; or true;\n")
    } else {
        owned("export KUBECONFIG=\"/dev/null\";\nunset KUBECACHEDIR;\nunset K8PK_CONTEXT;\nunset K8PK_CONTEXT_DISPLAY;\nunset K8PK_NAMESPACE;\nunset K8PK_DEPTH;\nunset OC_NAMESPACE;\nk8pk sessions deregister 2>/dev/null || true;\n")
    }
}

/// What to do with a context once switched to.
#[derive(Debug, Clone, Copy, PartialEq, Eq, Structural)]
pub enum OutputAction {
    /// Print the shell exports.
    Env,
    /// Print the context as JSON.
    Json,
    /// Open a shell in the context.
    Spawn,
}

/// The action an output mode asks for: `env`, `json` and `spawn` as named;
/// none given means a shell on a terminal and exports otherwise.
pub fn context_output_action(output: Option<&str>, stdout_is_tty: bool) -> (r: Result<OutputAction, K8pkError>)
    ensures
        match output {
            Some(o) => if o@ == "env"@ {
                r == Ok::<OutputAction, K8pkError>(OutputAction::Env)
            } else if o@ == "json"@ {
                r == Ok::<OutputAction, K8pkError>(OutputAction::Json)
            } else if o@ == "spawn"@ {
                r == Ok::<OutputAction, K8pkError>(OutputAction::Spawn)
            } else {
                r matches Err(e) && e.is(ErrorKind::UnknownOutputFormat, o@)
            },
            None => r == Ok::<OutputAction, K8pkError>(if stdout_is_tty { OutputAction::Spawn } else { OutputAction::Env }),
        },
{
    match output {
        Some(o) => if str_eq(o, "env") {
            Ok(OutputAction::Env)
        } else if str_eq(o, "json") {
            Ok(OutputAction::Json)
        } else if str_eq(o, "spawn") {
            Ok(OutputAction::Spawn)
        } else {
            Err(K8pkError::UnknownOutputFormat(owned(o)))
        },
        None => Ok(if stdout_is_tty { OutputAction::Spawn } else { OutputAction::Env }),
    }
}

// ---------------------------------------------------------------------------
// Session liveness checks
// ---------------------------------------------------------------------------

/// The time a successful session check stays valid: `K8PK_SESSION_CHECK_TTL`
/// when it is a number, else the override, else the configured value, else
/// 300 seconds.
pub open spec fn ttl_of(env: Option<Seq<char>>, override_ttl: Option<u64>, configured: Option<u64>) -> u64 {
    let from_env = match env {
        Some(v) => crate::text::parsed_decimal(v, 18446744073709551615),
        None => None,
    };
    match from_env {
        Some(n) => n as u64,
        None => match override_ttl {
            Some(n) => n,
            None => match configured {
                Some(n) => n,
                None => 300,
            },
        },
    }
}

/// Decides the session-check time to live.
pub fn session_check_ttl_secs(env: Option<&str>, override_ttl: Option<u64>, configured: Option<u64>) -> (r: u64)
    ensures
        r == ttl_of(opt_view(env), override_ttl, configured),
{
    if let Some(v) = env {
        let cs = crate::text::chars_of(v);
        if let Some(n) = crate::text::parse_decimal(&cs, 18446744073709551615) {
            return n;
        }
    }
    if let Some(n) = override_ttl {
        return n;
    }
    match configured {
        Some(n) => n,
        None => 300,
    }
}

/// The session check is skipped outright: asked for explicitly, or
/// `K8PK_NO_SESSION_CHECK` set to something other than empty or `0`.
pub fn session_check_forced_off(explicit: bool, no_check_env: Option<&str>) -> (r: bool)
    ensures
        r == (explicit || match opt_view(no_check_env) {
            Some(v) => v != "0"@ && v.len() > 0,
            None => false,
        }),
{
    if explicit {
        return true;
    }
    match no_check_env {
        Some(v) => !str_eq(v, "0") && crate::text::chars_of(v).len() > 0,
        None => false,
    }
}

/// A successful check recorded at `checked_at` is still fresh at `now`.
pub fn recent_session_ok(ttl: u64, checked_at: Option<u64>, now: u64) -> (r: bool)
    ensures
        r == (ttl > 0 && match checked_at {
            Some(t) => (if now >= t { now - t } else { 0 }) < ttl,
            None => false,
        }),
{
    if ttl == 0 {
        return false;
    }
    match checked_at {
        Some(t) => now.saturating_sub(t) < ttl,
        None => false,
    }
}

} // verus!

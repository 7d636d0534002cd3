//! `k8pk doctor`: the findings of each check, and the checks that look at
//! kubeconfigs and the environment.

use vstd::prelude::*;
use crate::kubeconfig::{configs_view, context_refs, items_view, names, KubeConfig, KubeConfigView, NamedItemView};
use crate::kubeconfig_ops::{all_contexts, contains_str, lemma_contains_push};
use crate::login::opt_view;
use crate::context::{join_path_exec, path_join};
use crate::kubeconfig::opt_str;
use crate::text::{
    chars_lines, chars_of, concat, contains_seq, decimal, has_prefix, join_seq, lines, owned, str_contains, str_eq,
    str_starts_with, str_trim, string_of, trim, u64_to_string, views,
};

verus! {

/// The outcome of one check.
#[derive(Debug, Clone, Copy, PartialEq, Eq, Structural)]
pub enum DiagStatus {
    Passed,
    Warning,
    Error,
}

/// The finding of one check.
#[derive(Debug)]
pub struct DiagnosticResult {
    pub name: String,
    pub status: DiagStatus,
    pub message: String,
    pub fix_hint: Option<String>,
}

/// The content of a finding: name, status, message, hint.
pub open spec fn finding(r: DiagnosticResult) -> (Seq<char>, DiagStatus, Seq<char>, Option<Seq<char>>) {
    (r.name@, r.status, r.message@, crate::kubeconfig::opt_str(r.fix_hint))
}

impl DiagnosticResult {
    /// A passed check.
    pub fn ok(name: &str, message: &str) -> (r: DiagnosticResult)
        ensures
            finding(r) == (name@, DiagStatus::Passed, message@, None::<Seq<char>>),
    {
        DiagnosticResult { name: owned(name), status: DiagStatus::Passed, message: owned(message), fix_hint: None }
    }

    /// A check with a warning, and how to fix it if known.
    pub fn warning(name: &str, message: &str, fix: Option<&str>) -> (r: DiagnosticResult)
        ensures
            finding(r) == (name@, DiagStatus::Warning, message@, opt_view(fix)),
    {
        DiagnosticResult {
            name: owned(name),
            status: DiagStatus::Warning,
            message: owned(message),
            fix_hint: match fix {
                Some(f) => Some(owned(f)),
                None => None,
            },
        }
    }

    /// A failed check, and how to fix it if known.
    pub fn error(name: &str, message: &str, fix: Option<&str>) -> (r: DiagnosticResult)
        ensures
            finding(r) == (name@, DiagStatus::Error, message@, opt_view(fix)),
    {
        DiagnosticResult {
            name: owned(name),
            status: DiagStatus::Error,
            message: owned(message),
            fix_hint: match fix {
                Some(f) => Some(owned(f)),
                None => None,
            },
        }
    }
}

/// The finding on the k8pk config file, from where it is (if that can be
/// told), whether it exists, and the error of loading it (if any).
pub open spec fn config_finding(path: Option<Seq<char>>, exists: bool, load_error: Option<Seq<char>>) -> (Seq<char>, DiagStatus, Seq<char>, Option<Seq<char>>) {
    match path {
        None => ("k8pk config"@, DiagStatus::Error, "Cannot determine config path"@, Some("Check HOME directory is set"@)),
        Some(p) => if !exists {
            ("k8pk config"@, DiagStatus::Warning, "No config file (using defaults)"@, Some("Run: k8pk config init"@))
        } else {
            match load_error {
                Some(e) => ("k8pk config"@, DiagStatus::Error, "Invalid config: "@ + e, Some("Run: k8pk config init"@)),
                None => ("k8pk config"@, DiagStatus::Passed, "Valid config at "@ + p, None),
            }
        },
    }
}

/// Checks the k8pk config file.
pub fn check_k8pk_config(path: Option<&str>, exists: bool, load_error: Option<&str>) -> (r: DiagnosticResult)
    ensures
        finding(r) == config_finding(opt_view(path), exists, opt_view(load_error)),
{
    match path {
        None => DiagnosticResult::error("k8pk config", "Cannot determine config path", Some("Check HOME directory is set")),
        Some(p) => if !exists {
            DiagnosticResult::warning("k8pk config", "No config file (using defaults)", Some("Run: k8pk config init"))
        } else {
            match load_error {
                Some(e) => DiagnosticResult::error(
                    "k8pk config",
                    concat("Invalid config: ", e).as_str(),
                    Some("Run: k8pk config init"),
                ),
                None => DiagnosticResult::ok("k8pk config", concat("Valid config at ", p).as_str()),
            }
        },
    }
}

/// The finding on the kubeconfig files found: none, none valid, or how many
/// are valid; or the error of looking for them.
pub open spec fn files_finding(total: nat, valid: nat, scan_error: Option<Seq<char>>) -> (Seq<char>, DiagStatus, Seq<char>, Option<Seq<char>>) {
    match scan_error {
        Some(e) => ("kubeconfig files"@, DiagStatus::Error, "Error scanning: "@ + e, None),
        None => if total == 0 {
            ("kubeconfig files"@, DiagStatus::Warning, "No kubeconfig files found"@, Some("Create ~/.kube/config or run k8pk login"@))
        } else if valid == 0 {
            (
                "kubeconfig files"@,
                DiagStatus::Warning,
                "Found "@ + decimal(total) + " file(s) but none are valid YAML kubeconfigs"@,
                Some("Run 'k8pk lint' to check for issues"@),
            )
        } else {
            ("kubeconfig files"@, DiagStatus::Passed, "Found "@ + decimal(valid) + " valid file(s)"@, None)
        },
    }
}

/// Checks the kubeconfig files found.
pub fn check_kubeconfig_files(total: u64, valid: u64, scan_error: Option<&str>) -> (r: DiagnosticResult)
    ensures
        finding(r) == files_finding(total as nat, valid as nat, opt_view(scan_error)),
{
    match scan_error {
        Some(e) => DiagnosticResult::error("kubeconfig files", concat("Error scanning: ", e).as_str(), None),
        None => if total == 0 {
            DiagnosticResult::warning("kubeconfig files", "No kubeconfig files found", Some("Create ~/.kube/config or run k8pk login"))
        } else if valid == 0 {
            let msg = concat(
                concat("Found ", u64_to_string(total).as_str()).as_str(),
                " file(s) but none are valid YAML kubeconfigs",
            );
            DiagnosticResult::warning("kubeconfig files", msg.as_str(), Some("Run 'k8pk lint' to check for issues"))
        } else {
            let msg = concat(concat("Found ", u64_to_string(valid).as_str()).as_str(), " valid file(s)");
            DiagnosticResult::ok("kubeconfig files", msg.as_str())
        },
    }
}

/// The names that occur more than once, each once, in the order their
/// second occurrence comes.
pub open spec fn duplicate_names(ns: Seq<Seq<char>>) -> Seq<Seq<char>>
    decreases ns.len(),
{
    if ns.len() == 0 {
        Seq::empty()
    } else {
        let r = duplicate_names(ns.drop_last());
        let x = ns.last();
        if ns.drop_last().contains(x) && !r.contains(x) {
            r.push(x)
        } else {
            r
        }
    }
}

/// The finding on context names that occur in more than one place.
pub open spec fn duplicates_finding(files: Seq<KubeConfigView>) -> (Seq<char>, DiagStatus, Seq<char>, Option<Seq<char>>) {
    let d = duplicate_names(names(all_contexts(files)));
    if d.len() == 0 {
        ("duplicate contexts"@, DiagStatus::Passed, "No duplicates found"@, None)
    } else {
        (
            "duplicate contexts"@,
            DiagStatus::Warning,
            decimal(d.len()) + " duplicate(s): "@ + join_seq(crate::error::take_at_most(d, 3), ", "@),
            Some("k8pk uses first occurrence; consider renaming or removing duplicates"@),
        )
    }
}

/// Checks the parsed kubeconfig files for context names used more than once.
pub fn check_duplicate_contexts(files: &[KubeConfig]) -> (r: DiagnosticResult)
    ensures
        finding(r) == duplicates_finding(configs_view(files@)),
{
    let ghost fv = configs_view(files@);
    let mut seen: Vec<String> = Vec::new();
    let mut dups: Vec<String> = Vec::new();
    let mut i: usize = 0;
    assert(fv.take(0) =~= Seq::<KubeConfigView>::empty());
    assert(names(all_contexts(fv.take(0))) =~= Seq::<Seq<char>>::empty());
    assert(views(seen@) =~= Seq::<Seq<char>>::empty());
    assert(views(dups@) =~= Seq::<Seq<char>>::empty());
    while i < files.len()
        invariant
            i <= files@.len(),
            fv == configs_view(files@),
            views(seen@) == names(all_contexts(fv.take(i as int))),
            views(dups@) == duplicate_names(views(seen@)),
        decreases files.len() - i,
    {
        let ghost base = views(seen@);
        assert(fv.take(i + 1).drop_last() =~= fv.take(i as int));
        assert(fv.take(i + 1).last() == files@[i as int]@);
        let ctxs = &files[i].contexts;
        let mut j: usize = 0;
        assert(base + names(items_view(ctxs@)).take(0) =~= base);
        while j < ctxs.len()
            invariant
                j <= ctxs@.len(),
                views(seen@) == base + names(items_view(ctxs@)).take(j as int),
                views(dups@) == duplicate_names(views(seen@)),
            decreases ctxs.len() - j,
        {
            let name = ctxs[j].name.as_str();
            let ghost sv = views(seen@);
            let ghost dv = views(dups@);
            let already = contains_str(&seen, name);
            let counted = contains_str(&dups, name);
            if already && !counted {
                dups.push(owned(name));
                assert(views(dups@) =~= dv.push(name@));
            }
            seen.push(owned(name));
            proof {
                assert(views(seen@) =~= sv.push(name@));
                assert(views(seen@).drop_last() =~= sv);
                assert(names(items_view(ctxs@)).take(j + 1) =~= names(items_view(ctxs@)).take(j as int).push(name@));
            }
            j = j + 1;
        }
        proof {
            assert(names(items_view(ctxs@)).take(ctxs@.len() as int) =~= names(items_view(ctxs@)));
            assert(names(all_contexts(fv.take(i + 1))) =~= base + names(items_view(ctxs@)));
        }
        i = i + 1;
    }
    assert(fv.take(files.len() as int) =~= fv);
    if dups.len() == 0 {
        return DiagnosticResult::ok("duplicate contexts", "No duplicates found");
    }
    let mut shown: Vec<Vec<char>> = Vec::new();
    let mut k: usize = 0;
    while k < dups.len() && k < 3
        invariant
            k <= dups@.len(),
            k <= 3,
            shown@.map_values(|v: Vec<char>| v@) == views(dups@).take(k as int),
        decreases dups.len() - k,
    {
        let ghost before = shown@;
        shown.push(crate::text::chars_of(dups[k].as_str()));
        assert(shown@.map_values(|v: Vec<char>| v@) =~= before.map_values(|v: Vec<char>| v@).push(dups@[k as int]@));
        assert(views(dups@).take(k + 1) =~= views(dups@).take(k as int).push(dups@[k as int]@));
        k = k + 1;
    }
    assert(views(dups@).take(k as int) =~= crate::error::take_at_most(views(dups@), 3));
    let sep = crate::text::chars_of(", ");
    let listed = crate::text::string_of(&crate::text::chars_join(&shown, &sep));
    let msg = concat(concat(u64_to_string(dups.len() as u64).as_str(), " duplicate(s): ").as_str(), listed.as_str());
    DiagnosticResult::warning(
        "duplicate contexts",
        msg.as_str(),
        Some("k8pk uses first occurrence; consider renaming or removing duplicates"),
    )
}

/// How many contexts of one kubeconfig name a cluster or user it lacks.
pub open spec fn orphans_in(ctxs: Seq<NamedItemView>, c: KubeConfigView) -> nat
    decreases ctxs.len(),
{
    if ctxs.len() == 0 {
        0
    } else {
        orphans_in(ctxs.drop_last(), c) + match context_refs(ctxs.last().rest) {
            Ok((cl, u)) => if !names(c.clusters).contains(cl) || !names(c.users).contains(u) { 1nat } else { 0nat },
            Err(_) => 0nat,
        }
    }
}

/// How many contexts, over all files, name a cluster or user their file lacks.
pub open spec fn orphan_count(files: Seq<KubeConfigView>) -> nat
    decreases files.len(),
{
    if files.len() == 0 {
        0
    } else {
        orphan_count(files.drop_last()) + orphans_in(files.last().contexts, files.last())
    }
}

/// The finding on contexts whose cluster or user is missing.
pub open spec fn orphans_finding(n: nat) -> (Seq<char>, DiagStatus, Seq<char>, Option<Seq<char>>) {
    if n == 0 {
        ("orphaned contexts"@, DiagStatus::Passed, "No orphaned contexts"@, None)
    } else {
        (
            "orphaned contexts"@,
            DiagStatus::Warning,
            decimal(n) + " context(s) with missing cluster/user refs"@,
            Some("Run: k8pk lint --strict"@),
        )
    }
}

fn item_names_of(v: &Vec<crate::kubeconfig::NamedItem>) -> (r: Vec<String>)
    ensures
        views(r@) == names(items_view(v@)),
{
    let mut r: Vec<String> = Vec::new();
    let mut i: usize = 0;
    while i < v.len()
        invariant
            i <= v@.len(),
            r@.len() == i,
            forall|j: int| 0 <= j < i ==> (#[trigger] r@[j])@ == v@[j].name@,
        decreases v.len() - i,
    {
        r.push(owned(v[i].name.as_str()));
        i = i + 1;
    }
    assert(views(r@) =~= names(items_view(v@)));
    r
}

/// Checks the parsed kubeconfig files for contexts whose cluster or user is
/// missing from their file.
pub fn check_orphaned_contexts(files: &[KubeConfig]) -> (r: DiagnosticResult)
    ensures
        finding(r) == orphans_finding(orphan_count(configs_view(files@))),
{
    let ghost fv = configs_view(files@);
    let mut count: u128 = 0;
    let mut i: usize = 0;
    assert(fv.take(0) =~= Seq::<KubeConfigView>::empty());
    while i < files.len()
        invariant
            i <= files@.len(),
            fv == configs_view(files@),
            count == orphan_count(fv.take(i as int)),
            count <= i * 0xFFFF_FFFF_FFFF_FFFF,
        decreases files.len() - i,
    {
        assert(fv.take(i + 1).drop_last() =~= fv.take(i as int));
        assert(fv.take(i + 1).last() == files@[i as int]@);
        let f = &files[i];
        let ghost c = f@;
        let cluster_names = item_names_of(&f.clusters);
        let user_names = item_names_of(&f.users);
        let mut here: u128 = 0;
        let mut j: usize = 0;
        while j < f.contexts.len()
            invariant
                j <= f.contexts@.len(),
                c == f@,
                views(cluster_names@) == names(c.clusters),
                views(user_names@) == names(c.users),
                here == orphans_in(c.contexts.take(j as int), c),
                here <= j,
            decreases f.contexts.len() - j,
        {
            assert(c.contexts.take(j + 1).drop_last() =~= c.contexts.take(j as int));
            assert(c.contexts.take(j + 1).last().rest == f.contexts@[j as int].rest@);
            match crate::kubeconfig::extract_context_refs(&f.contexts[j].rest) {
                Ok((cl, u)) => {
                    if !contains_str(&cluster_names, cl.as_str()) || !contains_str(&user_names, u.as_str()) {
                        here = here + 1;
                    }
                },
                Err(_) => {},
            }
            j = j + 1;
        }
        assert(c.contexts.take(f.contexts.len() as int) =~= c.contexts);
        let n_ctx = f.contexts.len();
        proof {
            assert(here <= n_ctx);
            assert(n_ctx <= 0xFFFF_FFFF_FFFF_FFFF);
            assert(count + here <= (i + 1) * 0xFFFF_FFFF_FFFF_FFFF) by (nonlinear_arith)
                requires
                    count <= i * 0xFFFF_FFFF_FFFF_FFFF,
                    here <= 0xFFFF_FFFF_FFFF_FFFF,
            ;
            assert((i + 1) * 0xFFFF_FFFF_FFFF_FFFF <= 0xFFFF_FFFF_FFFF_FFFF * 0xFFFF_FFFF_FFFF_FFFF) by (nonlinear_arith)
                requires
                    i + 1 <= 0xFFFF_FFFF_FFFF_FFFF,
            ;
        }
        count = count + here;
        i = i + 1;
    }
    assert(fv.take(files.len() as int) =~= fv);
    if count == 0 {
        DiagnosticResult::ok("orphaned contexts", "No orphaned contexts")
    } else {
        let msg = concat(crate::text::u128_to_string(count).as_str(), " context(s) with missing cluster/user refs");
        DiagnosticResult::warning("orphaned contexts", msg.as_str(), Some("Run: k8pk lint --strict"))
    }
}


/// The finding on the k8pk session variables: the active context and
/// namespace, and whether a k8pk kubeconfig is set, or a clean environment.
pub open spec fn session_finding(ctx: Option<Seq<char>>, ns: Option<Seq<char>>, kubeconfig_set: bool) -> (Seq<char>, DiagStatus, Seq<char>, Option<Seq<char>>) {
    if ctx is Some || ns is Some || kubeconfig_set {
        let parts = (match ctx {
            Some(c) => seq!["ctx="@ + c],
            None => Seq::empty(),
        }) + (match ns {
            Some(n) => seq!["ns="@ + n],
            None => Seq::empty(),
        }) + (if kubeconfig_set { seq!["kubeconfig=set"@] } else { Seq::empty() });
        ("k8pk session"@, DiagStatus::Passed, "Active: "@ + join_seq(parts, ", "@), None)
    } else {
        ("k8pk session"@, DiagStatus::Passed, "No active session (clean environment)"@, None)
    }
}

fn push_part(v: &mut Vec<Vec<char>>, s: String)
    ensures
        final(v)@.map_values(|x: Vec<char>| x@) == old(v)@.map_values(|x: Vec<char>| x@).push(s@),
{
    let ghost before = v@;
    v.push(crate::text::chars_of(s.as_str()));
    assert(v@.map_values(|x: Vec<char>| x@) =~= before.map_values(|x: Vec<char>| x@).push(s@));
}

/// Checks the k8pk session variables.
pub fn check_k8pk_env(ctx: Option<&str>, ns: Option<&str>, kubeconfig_set: bool) -> (r: DiagnosticResult)
    ensures
        finding(r) == session_finding(opt_view(ctx), opt_view(ns), kubeconfig_set),
{
    if ctx.is_none() && ns.is_none() && !kubeconfig_set {
        return DiagnosticResult::ok("k8pk session", "No active session (clean environment)");
    }
    let mut parts: Vec<Vec<char>> = Vec::new();
    assert(parts@.map_values(|x: Vec<char>| x@) =~= Seq::<Seq<char>>::empty());
    if let Some(c) = ctx {
        push_part(&mut parts, concat("ctx=", c));
    }
    if let Some(n) = ns {
        push_part(&mut parts, concat("ns=", n));
    }
    if kubeconfig_set {
        push_part(&mut parts, owned("kubeconfig=set"));
    }
    proof {
        let p = (match opt_view(ctx) {
            Some(c) => seq!["ctx="@ + c],
            None => Seq::<Seq<char>>::empty(),
        }) + (match opt_view(ns) {
            Some(n) => seq!["ns="@ + n],
            None => Seq::<Seq<char>>::empty(),
        }) + (if kubeconfig_set { seq!["kubeconfig=set"@] } else { Seq::<Seq<char>>::empty() });
        assert(parts@.map_values(|x: Vec<char>| x@) =~= p);
    }
    let sep = crate::text::chars_of(", ");
    let joined = crate::text::string_of(&crate::text::chars_join(&parts, &sep));
    DiagnosticResult::ok("k8pk session", concat("Active: ", joined.as_str()).as_str())
}

/// The finding on `KUBECONFIG`: unset, all its paths exist, or how many do.
pub open spec fn kubeconfig_env_finding(set: bool, total: nat, existing: nat) -> (Seq<char>, DiagStatus, Seq<char>, Option<Seq<char>>) {
    if !set {
        ("KUBECONFIG env"@, DiagStatus::Passed, "Not set (using ~/.kube/config)"@, None)
    } else if existing == total {
        ("KUBECONFIG env"@, DiagStatus::Passed, "Set with "@ + decimal(total) + " path(s)"@, None)
    } else {
        (
            "KUBECONFIG env"@,
            DiagStatus::Warning,
            decimal(existing) + "/"@ + decimal(total) + " paths exist"@,
            Some("Some KUBECONFIG paths don't exist"@),
        )
    }
}

/// Checks `KUBECONFIG`, from whether it is set and how many of its paths exist.
pub fn check_kubeconfig_env(set: bool, total: u64, existing: u64) -> (r: DiagnosticResult)
    ensures
        finding(r) == kubeconfig_env_finding(set, total as nat, existing as nat),
{
    if !set {
        DiagnosticResult::ok("KUBECONFIG env", "Not set (using ~/.kube/config)")
    } else if existing == total {
        let msg = concat(concat("Set with ", u64_to_string(total).as_str()).as_str(), " path(s)");
        DiagnosticResult::ok("KUBECONFIG env", msg.as_str())
    } else {
        let msg = concat(
            concat(concat(u64_to_string(existing).as_str(), "/").as_str(), u64_to_string(total).as_str()).as_str(),
            " paths exist",
        );
        DiagnosticResult::warning("KUBECONFIG env", msg.as_str(), Some("Some KUBECONFIG paths don't exist"))
    }
}

/// How many findings have a status.
pub open spec fn count_status(rs: Seq<DiagnosticResult>, s: DiagStatus) -> nat
    decreases rs.len(),
{
    if rs.len() == 0 {
        0
    } else {
        count_status(rs.drop_last(), s) + if rs.last().status == s { 1nat } else { 0nat }
    }
}

/// The numbers of passed, warning and failed checks.
pub fn summary_counts(results: &[DiagnosticResult]) -> (r: (usize, usize, usize))
    ensures
        r.0 == count_status(results@, DiagStatus::Passed),
        r.1 == count_status(results@, DiagStatus::Warning),
        r.2 == count_status(results@, DiagStatus::Error),
{
    let mut ok: usize = 0;
    let mut warn: usize = 0;
    let mut err: usize = 0;
    let mut i: usize = 0;
    while i < results.len()
        invariant
            i <= results@.len(),
            ok + warn + err == i,
            ok == count_status(results@.take(i as int), DiagStatus::Passed),
            warn == count_status(results@.take(i as int), DiagStatus::Warning),
            err == count_status(results@.take(i as int), DiagStatus::Error),
        decreases results.len() - i,
    {
        assert(results@.take(i + 1).drop_last() =~= results@.take(i as int));
        match results[i].status {
            DiagStatus::Passed => ok = ok + 1,
            DiagStatus::Warning => warn = warn + 1,
            DiagStatus::Error => err = err + 1,
        }
        i = i + 1;
    }
    assert(results@.take(results.len() as int) =~= results@);
    (ok, warn, err)
}

/// Whether any context name looks like GKE (`gke_` or `gke-` first, or
/// `gke` anywhere, case-insensitively).
pub open spec fn any_gke(ns: Seq<Seq<char>>) -> bool {
    exists|i: int| 0 <= i < ns.len() && (crate::text::has_prefix(#[trigger] ns[i], "gke_"@)
        || crate::text::has_prefix(ns[i], "gke-"@) || crate::text::contains_seq(crate::text::lowercase(ns[i]), "gke"@))
}

/// Whether the contexts include a GKE one, which makes the GKE checks worth running.
pub fn looks_like_gke(context_names: &[String]) -> (r: bool)
    ensures
        r == any_gke(views(context_names@)),
{
    let ghost nv = views(context_names@);
    let mut i: usize = 0;
    while i < context_names.len()
        invariant
            i <= context_names@.len(),
            nv == views(context_names@),
            forall|k: int| 0 <= k < i ==> !(crate::text::has_prefix(#[trigger] nv[k], "gke_"@)
                || crate::text::has_prefix(nv[k], "gke-"@) || crate::text::contains_seq(crate::text::lowercase(nv[k]), "gke"@)),
        decreases context_names.len() - i,
    {
        let n = context_names[i].as_str();
        assert(nv[i as int] == n@);
        let lower = crate::text::to_lowercase(n);
        if crate::text::str_starts_with(n, "gke_") || crate::text::str_starts_with(n, "gke-")
            || crate::text::str_contains(lower.as_str(), "gke") {
            return true;
        }
        i = i + 1;
    }
    false
}

// ---------------------------------------------------------------------------
// Command-line tools
// ---------------------------------------------------------------------------

/// How running a tool's version command went.
#[derive(Debug)]
pub enum ToolRun {
    /// The tool could not be started.
    NotFound,
    /// It ran and reported failure.
    Failed,
    /// It ran and succeeded; what it printed.
    Succeeded(String),
}

/// The first line of the output, else `unknown`.
pub open spec fn first_line(out: Seq<char>) -> Seq<char> {
    if lines(out).len() > 0 {
        lines(out)[0]
    } else {
        "unknown"@
    }
}

/// The first line that holds `pat`, else `unknown`.
pub open spec fn line_with(ls: Seq<Seq<char>>, pat: Seq<char>) -> Seq<char>
    decreases ls.len(),
{
    if ls.len() == 0 {
        "unknown"@
    } else if contains_seq(ls[0], pat) {
        ls[0]
    } else {
        line_with(ls.drop_first(), pat)
    }
}

fn output_lines(out: &str) -> (r: Vec<Vec<char>>)
    ensures
        r@.map_values(|v: Vec<char>| v@) == lines(out@),
{
    let cs = chars_of(out);
    chars_lines(cs.as_slice())
}

fn find_line_with(out: &str, pat: &str) -> (r: String)
    ensures
        r@ == line_with(lines(out@), pat@),
{
    let ls = output_lines(out);
    let ghost lv = ls@.map_values(|v: Vec<char>| v@);
    let mut i: usize = 0;
    assert(lv.skip(0) =~= lv);
    while i < ls.len()
        invariant
            i <= ls@.len(),
            lv == ls@.map_values(|v: Vec<char>| v@),
            lv == lines(out@),
            line_with(lv, pat@) == line_with(lv.skip(i as int), pat@),
        decreases ls.len() - i,
    {
        assert(lv.skip(i as int).drop_first() =~= lv.skip(i + 1));
        assert(lv.skip(i as int)[0] == ls@[i as int]@);
        let l = string_of(ls[i].as_slice());
        if str_contains(l.as_str(), pat) {
            return l;
        }
        i = i + 1;
    }
    assert(lv.skip(ls@.len() as int) =~= Seq::<Seq<char>>::empty());
    owned("unknown")
}

/// The kubectl check: found (with the first line of its version output),
/// failing, or missing.
pub fn check_kubectl(run: &ToolRun) -> (r: DiagnosticResult)
    ensures
        finding(r) == match *run {
            ToolRun::Succeeded(out) => ("kubectl"@, DiagStatus::Passed, "Found: "@ + trim(first_line(out@)), None),
            ToolRun::Failed => (
                "kubectl"@,
                DiagStatus::Warning,
                "kubectl found but returned error"@,
                Some("Check your kubectl installation"@),
            ),
            ToolRun::NotFound => (
                "kubectl"@,
                DiagStatus::Error,
                "kubectl not found in PATH"@,
                Some("Install kubectl: https://kubernetes.io/docs/tasks/tools/"@),
            ),
        },
{
    match run {
        ToolRun::Succeeded(out) => {
            let ls = output_lines(out.as_str());
            let first = if ls.len() > 0 {
                string_of(ls[0].as_slice())
            } else {
                owned("unknown")
            };
            let msg = concat("Found: ", str_trim(first.as_str()).as_str());
            DiagnosticResult::ok("kubectl", msg.as_str())
        },
        ToolRun::Failed => DiagnosticResult::warning(
            "kubectl",
            "kubectl found but returned error",
            Some("Check your kubectl installation"),
        ),
        ToolRun::NotFound => DiagnosticResult::error(
            "kubectl",
            "kubectl not found in PATH",
            Some("Install kubectl: https://kubernetes.io/docs/tasks/tools/"),
        ),
    }
}

/// The OpenShift CLI check: its client version, the binary used and how it
/// was found; a warning when it does not run (it is optional).
pub fn check_oc(run: &ToolRun, oc_path: &str, resolved_via: &str) -> (r: DiagnosticResult)
    ensures
        finding(r) == match *run {
            ToolRun::Succeeded(out) => (
                "oc (OpenShift CLI)"@,
                DiagStatus::Passed,
                trim(line_with(lines(out@), "Client Version"@)) + " | "@ + oc_path@ + " | via "@ + resolved_via@,
                None,
            ),
            _ => (
                "oc (OpenShift CLI)"@,
                DiagStatus::Warning,
                "Not installed (optional, needed for OCP login)"@,
                Some("Install oc: https://mirror.openshift.com/pub/openshift-v4/clients/ocp/latest/ — or set K8PK_OC to your oc binary path"@),
            ),
        },
{
    match run {
        ToolRun::Succeeded(out) => {
            let v = find_line_with(out.as_str(), "Client Version");
            let a = concat(str_trim(v.as_str()).as_str(), " | ");
            let b = concat(a.as_str(), oc_path);
            let c = concat(b.as_str(), " | via ");
            let msg = concat(c.as_str(), resolved_via);
            DiagnosticResult::ok("oc (OpenShift CLI)", msg.as_str())
        },
        _ => DiagnosticResult::warning(
            "oc (OpenShift CLI)",
            "Not installed (optional, needed for OCP login)",
            Some(
                "Install oc: https://mirror.openshift.com/pub/openshift-v4/clients/ocp/latest/ — or set K8PK_OC to your oc binary path",
            ),
        ),
    }
}

/// The gcloud check: the Google Cloud SDK line of its version output; a
/// warning when it does not run (it is optional).
pub fn check_gcloud(run: &ToolRun) -> (r: DiagnosticResult)
    ensures
        finding(r) == match *run {
            ToolRun::Succeeded(out) => (
                "gcloud"@,
                DiagStatus::Passed,
                "Found: "@ + trim(line_with(lines(out@), "Google Cloud SDK"@)),
                None,
            ),
            _ => (
                "gcloud"@,
                DiagStatus::Warning,
                "Not installed (optional, needed for GKE login)"@,
                Some("Install gcloud: https://cloud.google.com/sdk/docs/install"@),
            ),
        },
{
    match run {
        ToolRun::Succeeded(out) => {
            let v = find_line_with(out.as_str(), "Google Cloud SDK");
            let msg = concat("Found: ", str_trim(v.as_str()).as_str());
            DiagnosticResult::ok("gcloud", msg.as_str())
        },
        _ => DiagnosticResult::warning(
            "gcloud",
            "Not installed (optional, needed for GKE login)",
            Some("Install gcloud: https://cloud.google.com/sdk/docs/install"),
        ),
    }
}

/// The GKE auth plugin check: its version output; a warning when it does
/// not run (GKE clusters need it).
pub fn check_gke_auth_plugin(run: &ToolRun) -> (r: DiagnosticResult)
    ensures
        finding(r) == match *run {
            ToolRun::Succeeded(out) => ("gke-gcloud-auth-plugin"@, DiagStatus::Passed, "Found: "@ + trim(out@), None),
            _ => (
                "gke-gcloud-auth-plugin"@,
                DiagStatus::Warning,
                "Not installed (required for GKE clusters)"@,
                Some("Install: gcloud components install gke-gcloud-auth-plugin"@),
            ),
        },
{
    match run {
        ToolRun::Succeeded(out) => {
            let msg = concat("Found: ", str_trim(out.as_str()).as_str());
            DiagnosticResult::ok("gke-gcloud-auth-plugin", msg.as_str())
        },
        _ => DiagnosticResult::warning(
            "gke-gcloud-auth-plugin",
            "Not installed (required for GKE clusters)",
            Some("Install: gcloud components install gke-gcloud-auth-plugin"),
        ),
    }
}

/// Whether the GKE checks run: gcloud is installed, or a context looks like GKE.
pub fn should_check_gke(gcloud_found: bool, context_names: &[String]) -> (r: bool)
    ensures
        r == (gcloud_found || any_gke(views(context_names@))),
{
    if gcloud_found {
        return true;
    }
    looks_like_gke(context_names)
}

// ---------------------------------------------------------------------------
// File permissions
// ---------------------------------------------------------------------------

/// The character of an octal digit.
pub open spec fn octal_char(d: nat) -> char {
    crate::text::digit_char(d)
}

/// A file mode's permission bits as four octal digits (`0644`).
pub open spec fn mode_text(m: nat) -> Seq<char> {
    seq!['0', octal_char((m / 64) % 8), octal_char((m / 8) % 8), octal_char(m % 8)]
}

fn octal_digit(d: u32) -> (c: char)
    requires
        d < 8,
    ensures
        c == octal_char(d as nat),
{
    let b: u8 = 48u8 + (d as u8);
    b as char
}

fn mode_string(m: u32) -> (r: String)
    requires
        m < 512,
    ensures
        r@ == mode_text(m as nat),
{
    let mut cs: Vec<char> = Vec::new();
    cs.push('0');
    cs.push(octal_digit((m / 64) % 8));
    cs.push(octal_digit((m / 8) % 8));
    cs.push(octal_digit(m % 8));
    assert(cs@ =~= mode_text(m as nat));
    string_of(cs.as_slice())
}

/// The permission bits of a file mode.
pub open spec fn perm_bits(mode: u32) -> nat {
    (mode % 512) as nat
}

/// Whether group or others have any access.
pub open spec fn too_open(m: nat) -> bool {
    m % 64 != 0
}

/// The permission check of a kubeconfig file, given its mode.
pub fn check_kubeconfig_permissions(path: &str, mode: u32) -> (r: DiagnosticResult)
    ensures
        finding(r) == if too_open(perm_bits(mode)) {
            (
                "file permissions: "@ + path@,
                DiagStatus::Warning,
                "kubeconfig is accessible by others (mode "@ + mode_text(perm_bits(mode)) + ")"@,
                Some("Run: chmod 600 "@ + path@ + " (or use k8pk doctor --fix)"@),
            )
        } else {
            ("file permissions: "@ + path@, DiagStatus::Passed, "restricted (mode "@ + mode_text(perm_bits(mode)) + ")"@, None)
        },
{
    let m = mode & 0o777u32;
    assert(mode & 511u32 == mode % 512) by (bit_vector);
    assert(m & 63u32 == m % 64) by (bit_vector);
    let text = mode_string(m);
    let name = concat("file permissions: ", path);
    if m & 0o077u32 != 0 {
        let a = concat("kubeconfig is accessible by others (mode ", text.as_str());
        let msg = concat(a.as_str(), ")");
        let h = concat("Run: chmod 600 ", path);
        let hint = concat(h.as_str(), " (or use k8pk doctor --fix)");
        DiagnosticResult::warning(name.as_str(), msg.as_str(), Some(hint.as_str()))
    } else {
        let a = concat("restricted (mode ", text.as_str());
        let msg = concat(a.as_str(), ")");
        DiagnosticResult::ok(name.as_str(), msg.as_str())
    }
}

/// What the file system shows of the credential vault file.
#[derive(Debug, Clone, Copy)]
pub enum VaultFileState {
    /// There is no vault file.
    Missing,
    /// It exists but its metadata cannot be read.
    Unreadable,
    /// It exists with this mode.
    Mode(u32),
}

/// The permission check of the credential vault file at `path`; none when
/// its metadata cannot be read.
pub fn check_vault_file_permissions(path: &str, state: VaultFileState) -> (r: Option<DiagnosticResult>)
    ensures
        match state {
            VaultFileState::Missing => r matches Some(d) && finding(d) == (
                "vault file"@,
                DiagStatus::Passed,
                "no ~/.kube/k8pk-vault.json (not using k8pk vault)"@,
                None::<Seq<char>>,
            ),
            VaultFileState::Unreadable => r is None,
            VaultFileState::Mode(mode) => r matches Some(d) && finding(d) == if too_open(perm_bits(mode)) {
                (
                    "file permissions: "@ + path@,
                    DiagStatus::Warning,
                    "vault file is accessible by others (mode "@ + mode_text(perm_bits(mode)) + ")"@,
                    Some("Run: chmod 600 "@ + path@ + " (or use k8pk doctor --fix)"@),
                )
            } else {
                ("vault file"@, DiagStatus::Passed, "restricted (mode "@ + mode_text(perm_bits(mode)) + ")"@, None)
            },
        },
{
    match state {
        VaultFileState::Missing => Some(
            DiagnosticResult::ok("vault file", "no ~/.kube/k8pk-vault.json (not using k8pk vault)"),
        ),
        VaultFileState::Unreadable => None,
        VaultFileState::Mode(mode) => {
            let m = mode & 0o777u32;
            assert(mode & 511u32 == mode % 512) by (bit_vector);
            assert(m & 63u32 == m % 64) by (bit_vector);
            let text = mode_string(m);
            if m & 0o077u32 != 0 {
                let name = concat("file permissions: ", path);
                let a = concat("vault file is accessible by others (mode ", text.as_str());
                let msg = concat(a.as_str(), ")");
                let h = concat("Run: chmod 600 ", path);
                let hint = concat(h.as_str(), " (or use k8pk doctor --fix)");
                Some(DiagnosticResult::warning(name.as_str(), msg.as_str(), Some(hint.as_str())))
            } else {
                let a = concat("restricted (mode ", text.as_str());
                let msg = concat(a.as_str(), ")");
                Some(DiagnosticResult::ok("vault file", msg.as_str()))
            }
        },
    }
}

// ---------------------------------------------------------------------------
// Shell integration
// ---------------------------------------------------------------------------

/// The shell startup files looked at for the k8pk integration: fish's
/// config, `.zshrc`, or `.bashrc` and `.bash_profile`.
pub open spec fn rc_files(shell: Seq<char>, home: Seq<char>) -> Seq<Seq<char>> {
    if crate::text::has_suffix(shell, "fish"@) {
        seq![path_join(home, ".config/fish/config.fish"@)]
    } else if crate::text::has_suffix(shell, "zsh"@) {
        seq![path_join(home, ".zshrc"@)]
    } else {
        seq![path_join(home, ".bashrc"@), path_join(home, ".bash_profile"@)]
    }
}

/// The shell startup files to look in, from `$SHELL` and the home directory.
pub fn shell_rc_files(shell: &str, home: &str) -> (r: Vec<String>)
    ensures
        views(r@) == rc_files(shell@, home@),
{
    let mut r: Vec<String> = Vec::new();
    if crate::text::str_ends_with(shell, "fish") {
        r.push(join_path_exec(home, ".config/fish/config.fish"));
    } else if crate::text::str_ends_with(shell, "zsh") {
        r.push(join_path_exec(home, ".zshrc"));
    } else {
        r.push(join_path_exec(home, ".bashrc"));
        r.push(join_path_exec(home, ".bash_profile"));
    }
    assert(views(r@) =~= rc_files(shell@, home@));
    r
}

/// The shell integration check: found in a startup file (named), not
/// found, or not checkable without a home directory.
pub fn check_shell_integration(home_known: bool, found_in: Option<&str>) -> (r: DiagnosticResult)
    ensures
        !home_known ==> finding(r) == (
            "shell integration"@,
            DiagStatus::Warning,
            "Cannot determine home directory"@,
            Some("Ensure HOME is set"@),
        ),
        home_known ==> finding(r) == match found_in {
            Some(f) => ("shell integration"@, DiagStatus::Passed, "Found k8pk reference in "@ + f@, None),
            None => (
                "shell integration"@,
                DiagStatus::Warning,
                "k8pk shell integration not detected"@,
                Some("Source shell/k8pk.sh in your shell rc, or set up eval wrappers manually"@),
            ),
        },
{
    if !home_known {
        return DiagnosticResult::warning(
            "shell integration",
            "Cannot determine home directory",
            Some("Ensure HOME is set"),
        );
    }
    match found_in {
        Some(f) => {
            let msg = concat("Found k8pk reference in ", f);
            DiagnosticResult::ok("shell integration", msg.as_str())
        },
        None => DiagnosticResult::warning(
            "shell integration",
            "k8pk shell integration not detected",
            Some("Source shell/k8pk.sh in your shell rc, or set up eval wrappers manually"),
        ),
    }
}

// ---------------------------------------------------------------------------
// Report
// ---------------------------------------------------------------------------

/// The label of a status in the report.
pub open spec fn status_label(s: DiagStatus) -> Seq<char> {
    match s {
        DiagStatus::Passed => "OK"@,
        DiagStatus::Warning => "WARN"@,
        DiagStatus::Error => "ERR"@,
    }
}

/// The name of a status in JSON output.
pub fn status_name(s: DiagStatus) -> (r: &'static str)
    ensures
        r@ == match s {
            DiagStatus::Passed => "ok"@,
            DiagStatus::Warning => "warning"@,
            DiagStatus::Error => "error"@,
        },
{
    match s {
        DiagStatus::Passed => "ok",
        DiagStatus::Warning => "warning",
        DiagStatus::Error => "error",
    }
}

/// The report lines of one finding: `[STATUS] name: message`, and its hint
/// when the check did not pass.
pub open spec fn result_lines(r: DiagnosticResult) -> Seq<Seq<char>> {
    seq!["["@ + status_label(r.status) + "] "@ + r.name@ + ": "@ + r.message@] + match r.fix_hint {
        Some(h) => if r.status != DiagStatus::Passed {
            seq!["       Hint: "@ + h@]
        } else {
            Seq::empty()
        },
        None => Seq::empty(),
    }
}

/// The report lines of the findings, in order.
pub open spec fn results_lines(rs: Seq<DiagnosticResult>) -> Seq<Seq<char>>
    decreases rs.len(),
{
    if rs.len() == 0 {
        Seq::empty()
    } else {
        results_lines(rs.drop_last()) + result_lines(rs.last())
    }
}

/// The closing line of the report.
pub open spec fn verdict(warnings: nat, errors: nat) -> Seq<char> {
    if errors > 0 {
        "Some issues need attention. Check the hints above."@
    } else if warnings > 0 {
        "Everything looks good! Some optional improvements available."@
    } else {
        "All checks passed!"@
    }
}

/// The whole report, line by line.
pub open spec fn report_lines(rs: Seq<DiagnosticResult>) -> Seq<Seq<char>> {
    seq!["k8pk Doctor"@, "==========="@, Seq::empty()] + results_lines(rs) + seq![
        Seq::empty(),
        "Summary: "@ + decimal(count_status(rs, DiagStatus::Passed)) + " OK, "@ + decimal(
            count_status(rs, DiagStatus::Warning),
        ) + " warnings, "@ + decimal(count_status(rs, DiagStatus::Error)) + " errors"@,
        Seq::empty(),
        verdict(count_status(rs, DiagStatus::Warning), count_status(rs, DiagStatus::Error)),
    ]
}

fn label_of(s: DiagStatus) -> (r: &'static str)
    ensures
        r@ == status_label(s),
{
    match s {
        DiagStatus::Passed => "OK",
        DiagStatus::Warning => "WARN",
        DiagStatus::Error => "ERR",
    }
}

/// The doctor's report on the findings, line by line.
pub fn doctor_report(results: &[DiagnosticResult]) -> (r: Vec<String>)
    ensures
        views(r@) == report_lines(results@),
{
    let mut out: Vec<String> = Vec::new();
    out.push(owned("k8pk Doctor"));
    out.push(owned("==========="));
    out.push(owned(""));
    proof {
        reveal_strlit("");
    }
    let ghost head = views(out@);
    assert(""@ =~= Seq::<char>::empty());
    assert(head =~= seq!["k8pk Doctor"@, "==========="@, Seq::<char>::empty()]);
    assert(results@.take(0) =~= Seq::<DiagnosticResult>::empty());
    assert(head + results_lines(Seq::<DiagnosticResult>::empty()) =~= head);
    let mut i: usize = 0;
    while i < results.len()
        invariant
            i <= results@.len(),
            head == seq!["k8pk Doctor"@, "==========="@, Seq::<char>::empty()],
            views(out@) == head + results_lines(results@.take(i as int)),
        decreases results.len() - i,
    {
        assert(results@.take(i + 1).drop_last() =~= results@.take(i as int));
        let res = &results[i];
        let a = concat("[", label_of(res.status));
        let b = concat(a.as_str(), "] ");
        let c = concat(b.as_str(), res.name.as_str());
        let d = concat(c.as_str(), ": ");
        let line = concat(d.as_str(), res.message.as_str());
        let ghost before = views(out@);
        out.push(line);
        let ghost mid = views(out@);
        assert(mid =~= before.push(line@));
        match &res.fix_hint {
            Some(h) => {
                if res.status != DiagStatus::Passed {
                    out.push(concat("       Hint: ", h.as_str()));
                }
            },
            None => {},
        }
        assert(views(out@) =~= before + result_lines(results@[i as int]));
        assert(results@.take(i + 1).last() == results@[i as int]);
        i = i + 1;
    }
    assert(results@.take(results@.len() as int) =~= results@);
    let (ok, warn, err) = summary_counts(results);
    let ghost body = views(out@);
    out.push(owned(""));
    let s1 = concat("Summary: ", u64_to_string(ok as u64).as_str());
    let s2 = concat(s1.as_str(), " OK, ");
    let s3 = concat(s2.as_str(), u64_to_string(warn as u64).as_str());
    let s4 = concat(s3.as_str(), " warnings, ");
    let s5 = concat(s4.as_str(), u64_to_string(err as u64).as_str());
    let summary = concat(s5.as_str(), " errors");
    out.push(summary);
    out.push(owned(""));
    let v = if err > 0 {
        "Some issues need attention. Check the hints above."
    } else if warn > 0 {
        "Everything looks good! Some optional improvements available."
    } else {
        "All checks passed!"
    };
    out.push(owned(v));
    assert(""@ =~= Seq::<char>::empty());
    assert(body == head + results_lines(results@));
    assert(summary@ == "Summary: "@ + decimal(count_status(results@, DiagStatus::Passed)) + " OK, "@ + decimal(
            count_status(results@, DiagStatus::Warning),
        ) + " warnings, "@ + decimal(count_status(results@, DiagStatus::Error)) + " errors"@);
    assert(v@ == verdict(count_status(results@, DiagStatus::Warning), count_status(results@, DiagStatus::Error)));
    assert(views(out@) =~= body + seq![Seq::<char>::empty(), summary@, Seq::<char>::empty(), v@]);
    assert(views(out@) =~= report_lines(results@));
    out
}

// ---------------------------------------------------------------------------
// Fixes
// ---------------------------------------------------------------------------

/// The file whose permissions a fix would restrict: the path named by a
/// failed file-permission finding.
pub open spec fn fix_target_of(r: DiagnosticResult) -> Option<Seq<char>> {
    if r.status != DiagStatus::Passed && has_prefix(r.name@, "file permissions:"@) {
        Some(if has_prefix(r.name@, "file permissions: "@) {
            r.name@.subrange(18, r.name@.len() as int)
        } else {
            Seq::empty()
        })
    } else {
        None
    }
}

/// The file a fix would restrict to mode 0600, if the finding has one.
pub fn fix_target(r: &DiagnosticResult) -> (t: Option<String>)
    ensures
        opt_str(t) == fix_target_of(*r),
{
    if r.status != DiagStatus::Passed && str_starts_with(r.name.as_str(), "file permissions:") {
        if str_starts_with(r.name.as_str(), "file permissions: ") {
            let cs = chars_of(r.name.as_str());
            proof {
                reveal_strlit("file permissions: ");
            }
            let mut rest: Vec<char> = Vec::new();
            let mut i: usize = 18;
            while i < cs.len()
                invariant
                    18 <= i <= cs@.len(),
                    cs@ == r.name@,
                    rest@ == cs@.subrange(18, i as int),
                decreases cs.len() - i,
            {
                rest.push(cs[i]);
                assert(cs@.subrange(18, i + 1) =~= cs@.subrange(18, i as int).push(cs@[i as int]));
                i = i + 1;
            }
            Some(string_of(rest.as_slice()))
        } else {
            proof {
                reveal_strlit("");
            }
            Some(owned(""))
        }
    } else {
        None
    }
}

/// Records a successful fix: the finding passes, says so, and has no hint.
pub fn mark_fixed(r: &mut DiagnosticResult)
    ensures
        finding(*final(r)) == (old(r).name@, DiagStatus::Passed, "fixed: permissions set to 0600"@, None::<Seq<char>>),
{
    r.status = DiagStatus::Passed;
    r.message = owned("fixed: permissions set to 0600");
    r.fix_hint = None;
}

/// How many findings report a fix.
pub open spec fn fixed_in(rs: Seq<DiagnosticResult>) -> nat
    decreases rs.len(),
{
    if rs.len() == 0 {
        0
    } else {
        fixed_in(rs.drop_last()) + if has_prefix(rs.last().message@, "fixed:"@) { 1nat } else { 0nat }
    }
}

/// The number of fixes applied.
pub fn fixed_count(results: &[DiagnosticResult]) -> (n: usize)
    ensures
        n == fixed_in(results@),
{
    let mut n: usize = 0;
    let mut i: usize = 0;
    while i < results.len()
        invariant
            i <= results@.len(),
            n == fixed_in(results@.take(i as int)),
            n <= i,
        decreases results.len() - i,
    {
        assert(results@.take(i + 1).drop_last() =~= results@.take(i as int));
        if str_starts_with(results[i].message.as_str(), "fixed:") {
            n = n + 1;
        }
        i = i + 1;
    }
    assert(results@.take(results@.len() as int) =~= results@);
    n
}

} // verus!

//! Errors of k8pk and the "did you mean?" suggestion logic.

use vstd::prelude::*;
use crate::text::{chars_of, concat, lowercase, owned, to_lowercase, views};

verus! {

/// Main error type for k8pk operations.
///
/// Errors that come from I/O, YAML or JSON carry the outside error's message.
#[derive(Debug, Clone)]
pub enum K8pkError {
    ContextNotFound(String),
    ContextNotFoundSuggestions { pattern: String, suggestions: String },
    ClusterNotFound(String),
    UserNotFound(String),
    NoContexts,
    NoNamespaces(String),
    KubeconfigNotFound(String),
    InvalidKubeconfig(String),
    NoK8sCli,
    NotInContext,
    NoPreviousContext,
    NoPreviousNamespace,
    NoTty,
    Cancelled,
    NoHomeDir,
    CommandFailed(String),
    SessionExpired(String),
    TlsCertificateError { context: String, hint: String },
    UnknownOutputFormat(String),
    UnsupportedShell(String),
    InvalidArgument(String),
    LoginFailed(String),
    LintFailed,
    HttpError(String),
    Io(String),
    Yaml(String),
    Json(String),
    Other(String),
}

/// Which kind of error a `K8pkError` is, without its payload.
#[derive(Debug, Clone, Copy, PartialEq, Eq, Structural)]
pub enum ErrorKind {
    ContextNotFound,
    ContextNotFoundSuggestions,
    ClusterNotFound,
    UserNotFound,
    NoContexts,
    NoNamespaces,
    KubeconfigNotFound,
    InvalidKubeconfig,
    NoK8sCli,
    NotInContext,
    NoPreviousContext,
    NoPreviousNamespace,
    NoTty,
    Cancelled,
    NoHomeDir,
    CommandFailed,
    SessionExpired,
    TlsCertificateError,
    UnknownOutputFormat,
    UnsupportedShell,
    InvalidArgument,
    LoginFailed,
    LintFailed,
    HttpError,
    Io,
    Yaml,
    Json,
    Other,
}

impl K8pkError {
    /// The kind of this error.
    pub open spec fn kind(self) -> ErrorKind {
        match self {
            K8pkError::ContextNotFound(_) => ErrorKind::ContextNotFound,
            K8pkError::ContextNotFoundSuggestions { .. } => ErrorKind::ContextNotFoundSuggestions,
            K8pkError::ClusterNotFound(_) => ErrorKind::ClusterNotFound,
            K8pkError::UserNotFound(_) => ErrorKind::UserNotFound,
            K8pkError::NoContexts => ErrorKind::NoContexts,
            K8pkError::NoNamespaces(_) => ErrorKind::NoNamespaces,
            K8pkError::KubeconfigNotFound(_) => ErrorKind::KubeconfigNotFound,
            K8pkError::InvalidKubeconfig(_) => ErrorKind::InvalidKubeconfig,
            K8pkError::NoK8sCli => ErrorKind::NoK8sCli,
            K8pkError::NotInContext => ErrorKind::NotInContext,
            K8pkError::NoPreviousContext => ErrorKind::NoPreviousContext,
            K8pkError::NoPreviousNamespace => ErrorKind::NoPreviousNamespace,
            K8pkError::NoTty => ErrorKind::NoTty,
            K8pkError::Cancelled => ErrorKind::Cancelled,
            K8pkError::NoHomeDir => ErrorKind::NoHomeDir,
            K8pkError::CommandFailed(_) => ErrorKind::CommandFailed,
            K8pkError::SessionExpired(_) => ErrorKind::SessionExpired,
            K8pkError::TlsCertificateError { .. } => ErrorKind::TlsCertificateError,
            K8pkError::UnknownOutputFormat(_) => ErrorKind::UnknownOutputFormat,
            K8pkError::UnsupportedShell(_) => ErrorKind::UnsupportedShell,
            K8pkError::InvalidArgument(_) => ErrorKind::InvalidArgument,
            K8pkError::LoginFailed(_) => ErrorKind::LoginFailed,
            K8pkError::LintFailed => ErrorKind::LintFailed,
            K8pkError::HttpError(_) => ErrorKind::HttpError,
            K8pkError::Io(_) => ErrorKind::Io,
            K8pkError::Yaml(_) => ErrorKind::Yaml,
            K8pkError::Json(_) => ErrorKind::Json,
            K8pkError::Other(_) => ErrorKind::Other,
        }
    }

    /// The (first) text that this error carries; empty for errors without one.
    pub open spec fn detail(self) -> Seq<char> {
        match self {
            K8pkError::ContextNotFound(s) => s@,
            K8pkError::ContextNotFoundSuggestions { pattern, .. } => pattern@,
            K8pkError::ClusterNotFound(s) => s@,
            K8pkError::UserNotFound(s) => s@,
            K8pkError::NoNamespaces(s) => s@,
            K8pkError::KubeconfigNotFound(s) => s@,
            K8pkError::InvalidKubeconfig(s) => s@,
            K8pkError::CommandFailed(s) => s@,
            K8pkError::SessionExpired(s) => s@,
            K8pkError::TlsCertificateError { context, .. } => context@,
            K8pkError::UnknownOutputFormat(s) => s@,
            K8pkError::UnsupportedShell(s) => s@,
            K8pkError::InvalidArgument(s) => s@,
            K8pkError::LoginFailed(s) => s@,
            K8pkError::HttpError(s) => s@,
            K8pkError::Io(s) => s@,
            K8pkError::Yaml(s) => s@,
            K8pkError::Json(s) => s@,
            K8pkError::Other(s) => s@,
            _ => Seq::empty(),
        }
    }

    /// The error is of kind `k` and carries the text `d`.
    pub open spec fn is(self, k: ErrorKind, d: Seq<char>) -> bool {
        self.kind() == k && self.detail() == d
    }
}

/// The text of a `NoContexts` error.
pub open spec fn no_contexts_text() -> Seq<char> {
    "no contexts found\n\n\
      Once kubeconfigs exist, run `k8pk` to pick a cluster and open a shell.\n\n\
      Get started:\n\
        k8pk login --server https://your-cluster:6443\n\
        k8pk login --wizard\n\n\
      Diagnose setup:\n\
        k8pk doctor\n\n\
      Command map:\n\
        k8pk guide\n\n\
      Or check your kubeconfig:\n\
        kubectl config get-contexts\n\
        k8pk --kubeconfig /path/to/config contexts"@
}

/// The message that an error displays.
pub open spec fn error_message(e: K8pkError) -> Seq<char> {
    match e {
        K8pkError::ContextNotFound(s) => "context '"@ + s@
            + "' not found\n\n  Run 'k8pk contexts' to see available contexts"@,
        K8pkError::ContextNotFoundSuggestions { pattern, suggestions } => "context '"@ + pattern@
            + "' not found. Did you mean:\n"@ + suggestions@
            + "\n\n  Run 'k8pk contexts' to see all contexts"@,
        K8pkError::ClusterNotFound(s) => "cluster '"@ + s@
            + "' not found in kubeconfig\n\n  The context may reference a deleted cluster. Run 'k8pk lint' to check"@,
        K8pkError::UserNotFound(s) => "user '"@ + s@
            + "' not found in kubeconfig\n\n  The context may reference a deleted user. Run 'k8pk lint' to check"@,
        K8pkError::NoContexts => no_contexts_text(),
        K8pkError::NoNamespaces(s) => "no namespaces found for context '"@ + s@
            + "'\n\n  The cluster may be unreachable or you may lack permissions.\n  Try: kubectl --context "@
            + s@ + " get namespaces"@,
        K8pkError::KubeconfigNotFound(s) => "kubeconfig file not found: "@ + s@
            + "\n\n  Create it with:\n    kubectl config set-cluster <name> --server=https://...\n\n  Or check KUBECONFIG environment variable"@,
        K8pkError::InvalidKubeconfig(s) => "invalid kubeconfig: "@ + s@
            + "\n\n  Run 'k8pk lint' to diagnose issues"@,
        K8pkError::NoK8sCli => "neither 'oc' nor 'kubectl' found on PATH\n\n  Install kubectl:\n    brew install kubectl\n    # or: https://kubernetes.io/docs/tasks/tools/"@,
        K8pkError::NotInContext => "not in a k8pk context\n\n  Switch to a context first:\n    k8pk ctx <context-name>\n\n  Or run interactively:\n    k8pk"@,
        K8pkError::NoPreviousContext => "no previous context in history\n\n  Use 'k8pk ctx -' only after switching at least once"@,
        K8pkError::NoPreviousNamespace => "no previous namespace in history\n\n  Use 'k8pk ns -' only after switching at least once"@,
        K8pkError::NoTty => "interactive selection requires a TTY\n\n  This command needs an interactive terminal.\n  For scripts, specify values directly:\n    k8pk ctx <context> -n <namespace>"@,
        K8pkError::Cancelled => "selection cancelled"@,
        K8pkError::NoHomeDir => "cannot resolve home directory\n\n  HOME environment variable may not be set"@,
        K8pkError::CommandFailed(s) => "command failed: "@ + s@,
        K8pkError::SessionExpired(s) => "session expired for '"@ + s@
            + "'\n\n  Re-authenticate interactively:\n    k8pk ctx "@ + s@
            + "\n\n  Or login directly:\n    k8pk login"@,
        K8pkError::TlsCertificateError { context, hint } => "TLS certificate error for '"@
            + context@ + "'\n\n  The cluster uses an untrusted certificate.\n  "@ + hint@,
        K8pkError::UnknownOutputFormat(s) => "unknown output format: '"@ + s@
            + "'\n\n  Valid formats: env, json, spawn"@,
        K8pkError::UnsupportedShell(s) => "unsupported shell: '"@ + s@
            + "'\n\n  Supported shells: bash, zsh, fish, powershell, elvish"@,
        K8pkError::InvalidArgument(s) => "invalid argument: "@ + s@,
        K8pkError::LoginFailed(s) => "login failed: "@ + s@,
        K8pkError::LintFailed => "lint failed\n\n  Run 'k8pk lint' for details"@,
        K8pkError::HttpError(s) => "HTTP request failed: "@ + s@,
        K8pkError::Io(s) => "IO error: "@ + s@,
        K8pkError::Yaml(s) => "YAML parse error: "@ + s@
            + "\n\n  Run 'k8pk lint' to diagnose kubeconfig issues"@,
        K8pkError::Json(s) => "JSON error: "@ + s@,
        K8pkError::Other(s) => s@,
    }
}

fn cat3(a: &str, b: &str, c: &str) -> (r: String)
    ensures
        r@ == a@ + b@ + c@,
{
    let ab = concat(a, b);
    concat(ab.as_str(), c)
}

fn cat5(a: &str, b: &str, c: &str, d: &str, e: &str) -> (r: String)
    ensures
        r@ == a@ + b@ + c@ + d@ + e@,
{
    let abc = cat3(a, b, c);
    cat3(abc.as_str(), d, e)
}

impl K8pkError {
    /// The message this error displays.
    pub fn message(&self) -> (r: String)
        ensures
            r@ == error_message(*self),
    {
        match self {
            K8pkError::ContextNotFound(s) => cat3(
                "context '",
                s.as_str(),
                "' not found\n\n  Run 'k8pk contexts' to see available contexts",
            ),
            K8pkError::ContextNotFoundSuggestions { pattern, suggestions } => cat5(
                "context '",
                pattern.as_str(),
                "' not found. Did you mean:\n",
                suggestions.as_str(),
                "\n\n  Run 'k8pk contexts' to see all contexts",
            ),
            K8pkError::ClusterNotFound(s) => cat3(
                "cluster '",
                s.as_str(),
                "' not found in kubeconfig\n\n  The context may reference a deleted cluster. Run 'k8pk lint' to check",
            ),
            K8pkError::UserNotFound(s) => cat3(
                "user '",
                s.as_str(),
                "' not found in kubeconfig\n\n  The context may reference a deleted user. Run 'k8pk lint' to check",
            ),
            K8pkError::NoContexts => owned(
                "no contexts found\n\n\
                  Once kubeconfigs exist, run `k8pk` to pick a cluster and open a shell.\n\n\
                  Get started:\n\
                    k8pk login --server https://your-cluster:6443\n\
                    k8pk login --wizard\n\n\
                  Diagnose setup:\n\
                    k8pk doctor\n\n\
                  Command map:\n\
                    k8pk guide\n\n\
                  Or check your kubeconfig:\n\
                    kubectl config get-contexts\n\
                    k8pk --kubeconfig /path/to/config contexts",
            ),
            K8pkError::NoNamespaces(s) => cat5(
                "no namespaces found for context '",
                s.as_str(),
                "'\n\n  The cluster may be unreachable or you may lack permissions.\n  Try: kubectl --context ",
                s.as_str(),
                " get namespaces",
            ),
            K8pkError::KubeconfigNotFound(s) => cat3(
                "kubeconfig file not found: ",
                s.as_str(),
                "\n\n  Create it with:\n    kubectl config set-cluster <name> --server=https://...\n\n  Or check KUBECONFIG environment variable",
            ),
            K8pkError::InvalidKubeconfig(s) => cat3(
                "invalid kubeconfig: ",
                s.as_str(),
                "\n\n  Run 'k8pk lint' to diagnose issues",
            ),
            K8pkError::NoK8sCli => owned(
                "neither 'oc' nor 'kubectl' found on PATH\n\n  Install kubectl:\n    brew install kubectl\n    # or: https://kubernetes.io/docs/tasks/tools/",
            ),
            K8pkError::NotInContext => owned(
                "not in a k8pk context\n\n  Switch to a context first:\n    k8pk ctx <context-name>\n\n  Or run interactively:\n    k8pk",
            ),
            K8pkError::NoPreviousContext => owned(
                "no previous context in history\n\n  Use 'k8pk ctx -' only after switching at least once",
            ),
            K8pkError::NoPreviousNamespace => owned(
                "no previous namespace in history\n\n  Use 'k8pk ns -' only after switching at least once",
            ),
            K8pkError::NoTty => owned(
                "interactive selection requires a TTY\n\n  This command needs an interactive terminal.\n  For scripts, specify values directly:\n    k8pk ctx <context> -n <namespace>",
            ),
            K8pkError::Cancelled => owned("selection cancelled"),
            K8pkError::NoHomeDir => owned(
                "cannot resolve home directory\n\n  HOME environment variable may not be set",
            ),
            K8pkError::CommandFailed(s) => concat("command failed: ", s.as_str()),
            K8pkError::SessionExpired(s) => cat5(
                "session expired for '",
                s.as_str(),
                "'\n\n  Re-authenticate interactively:\n    k8pk ctx ",
                s.as_str(),
                "\n\n  Or login directly:\n    k8pk login",
            ),
            K8pkError::TlsCertificateError { context, hint } => cat3(
                "TLS certificate error for '",
                context.as_str(),
                "'\n\n  The cluster uses an untrusted certificate.\n  ",
            ).concat(hint.as_str()),
            K8pkError::UnknownOutputFormat(s) => cat3(
                "unknown output format: '",
                s.as_str(),
                "'\n\n  Valid formats: env, json, spawn",
            ),
            K8pkError::UnsupportedShell(s) => cat3(
                "unsupported shell: '",
                s.as_str(),
                "'\n\n  Supported shells: bash, zsh, fish, powershell, elvish",
            ),
            K8pkError::InvalidArgument(s) => concat("invalid argument: ", s.as_str()),
            K8pkError::LoginFailed(s) => concat("login failed: ", s.as_str()),
            K8pkError::LintFailed => owned("lint failed\n\n  Run 'k8pk lint' for details"),
            K8pkError::HttpError(s) => concat("HTTP request failed: ", s.as_str()),
            K8pkError::Io(s) => concat("IO error: ", s.as_str()),
            K8pkError::Yaml(s) => cat3(
                "YAML parse error: ",
                s.as_str(),
                "\n\n  Run 'k8pk lint' to diagnose kubeconfig issues",
            ),
            K8pkError::Json(s) => concat("JSON error: ", s.as_str()),
            K8pkError::Other(s) => s.clone(),
        }
    }
}

// ---------------------------------------------------------------------------
// Edit distance
// ---------------------------------------------------------------------------

/// The smallest of three numbers.
pub open spec fn min3(x: nat, y: nat, z: nat) -> nat {
    if x <= y && x <= z {
        x
    } else if y <= z {
        y
    } else {
        z
    }
}

/// Levenshtein distance between two character sequences: the least number
/// of single-character insertions, deletions and substitutions.
pub open spec fn levenshtein(a: Seq<char>, b: Seq<char>) -> nat
    decreases a.len() + b.len(),
{
    if a.len() == 0 {
        b.len()
    } else if b.len() == 0 {
        a.len()
    } else {
        min3(
            levenshtein(a.drop_last(), b) + 1,
            levenshtein(a, b.drop_last()) + 1,
            levenshtein(a.drop_last(), b.drop_last()) + (if a.last() == b.last() {
                0nat
            } else {
                1nat
            }),
        )
    }
}

/// The distance never exceeds the longer length.
pub proof fn lemma_levenshtein_bound(a: Seq<char>, b: Seq<char>)
    ensures
        levenshtein(a, b) <= if a.len() >= b.len() {
            a.len()
        } else {
            b.len()
        },
    decreases a.len() + b.len(),
{
    if a.len() > 0 && b.len() > 0 {
        lemma_levenshtein_bound(a.drop_last(), b.drop_last());
    }
}

/// Edit distance (Levenshtein) between two strings over Unicode chars.
/// Used for "did you mean?" suggestions.
pub fn edit_distance(a: &str, b: &str) -> (d: usize)
    ensures
        d == levenshtein(a@, b@),
{
    let av = chars_of(a);
    let bv = chars_of(b);
    let a_len = av.len();
    let b_len = bv.len();
    // prev[j] is the distance between the first i chars of a and the first j of b.
    let mut prev: Vec<usize> = Vec::new();
    prev.push(0);
    let mut j: usize = 0;
    while j < b_len
        invariant
            b_len == bv@.len(),
            j <= b_len,
            prev@.len() == j + 1,
            forall|k: int| 0 <= k <= j ==> prev@[k] == k,
        decreases b_len - j,
    {
        j = j + 1;
        prev.push(j);
    }
    assert forall|k: int| 0 <= k <= b_len implies prev@[k] == levenshtein(
        av@.take(0),
        bv@.take(k),
    ) by {
        assert(av@.take(0).len() == 0);
        assert(bv@.take(k).len() == k);
    }
    let mut i: usize = 0;
    while i < a_len
        invariant
            a_len == av@.len(),
            b_len == bv@.len(),
            i <= a_len,
            prev@.len() == b_len + 1,
            forall|k: int| 0 <= k <= b_len ==> prev@[k] == levenshtein(av@.take(i as int), bv@.take(k)),
        decreases a_len - i,
    {
        let mut cur: Vec<usize> = Vec::new();
        cur.push(i + 1);
        proof {
            assert(bv@.take(0).len() == 0);
            assert(av@.take(i + 1).len() == i + 1);
        }
        let mut j: usize = 0;
        while j < b_len
            invariant
                a_len == av@.len(),
                b_len == bv@.len(),
                i < a_len,
                j <= b_len,
                prev@.len() == b_len + 1,
                forall|k: int| 0 <= k <= b_len ==> prev@[k] == levenshtein(av@.take(i as int), bv@.take(k)),
                cur@.len() == j + 1,
                forall|k: int| 0 <= k <= j ==> cur@[k] == levenshtein(av@.take(i + 1), bv@.take(k)),
            decreases b_len - j,
        {
            let cost: u128 = if av[i] == bv[j] { 0 } else { 1 };
            let x: u128 = prev[j + 1] as u128 + 1;
            let y: u128 = cur[j] as u128 + 1;
            let z: u128 = prev[j] as u128 + cost;
            let m: u128 = if x <= y && x <= z {
                x
            } else if y <= z {
                y
            } else {
                z
            };
            proof {
                let ai = av@.take(i + 1);
                let bj = bv@.take(j + 1);
                assert(ai.drop_last() =~= av@.take(i as int));
                assert(bj.drop_last() =~= bv@.take(j as int));
                assert(ai.last() == av@[i as int]);
                assert(bj.last() == bv@[j as int]);
                lemma_levenshtein_bound(ai, bj);
            }
            cur.push(m as usize);
            j = j + 1;
        }
        prev = cur;
        i = i + 1;
    }
    proof {
        assert(av@.take(a_len as int) =~= av@);
        assert(bv@.take(b_len as int) =~= bv@);
    }
    prev[b_len]
}

// ---------------------------------------------------------------------------
// Suggestions
// ---------------------------------------------------------------------------

/// How far a candidate is from a query, ignoring case.
pub open spec fn match_distance(query: Seq<char>, cand: Seq<char>) -> nat {
    levenshtein(lowercase(query), lowercase(cand))
}

/// The largest distance still suggested, for a query of `query_bytes` UTF-8 bytes:
/// a third of the length, kept between 2 and 4.
pub open spec fn suggestion_threshold(query_bytes: int) -> int {
    let t = query_bytes / 3;
    if t < 2 {
        2
    } else if t > 4 {
        4
    } else {
        t
    }
}

/// The candidates at distance exactly `d` from the query, in their order.
pub open spec fn at_distance(query: Seq<char>, cands: Seq<Seq<char>>, d: nat) -> Seq<Seq<char>>
    decreases cands.len(),
{
    if cands.len() == 0 {
        Seq::empty()
    } else {
        let r = at_distance(query, cands.drop_last(), d);
        if match_distance(query, cands.last()) == d {
            r.push(cands.last())
        } else {
            r
        }
    }
}

/// The candidates within distance `t`, nearest first; equally near ones keep
/// their order (a stable sort by distance).
pub open spec fn ranked(query: Seq<char>, cands: Seq<Seq<char>>, t: nat) -> Seq<Seq<char>>
    decreases t,
{
    if t == 0 {
        at_distance(query, cands, 0)
    } else {
        ranked(query, cands, (t - 1) as nat) + at_distance(query, cands, t)
    }
}

/// The first `n` elements of `s`, or all of `s` when it is shorter.
pub open spec fn take_at_most<A>(s: Seq<A>, n: int) -> Seq<A> {
    if n <= s.len() {
        s.take(n)
    } else {
        s
    }
}

/// The suggestions for `query` among `cands`: at most `max` of the ranked candidates.
pub open spec fn closest(query: Seq<char>, query_bytes: int, cands: Seq<Seq<char>>, max: int) -> Seq<Seq<char>> {
    take_at_most(ranked(query, cands, suggestion_threshold(query_bytes) as nat), max)
}

proof fn lemma_take_at_most_push<A>(s: Seq<A>, x: A, n: int)
    requires
        0 <= n,
    ensures
        take_at_most(s.push(x), n) == if s.len() < n {
            take_at_most(s, n).push(x)
        } else {
            take_at_most(s, n)
        },
{
    if s.len() < n {
        assert(take_at_most(s.push(x), n) =~= s.push(x));
    } else {
        assert(take_at_most(s.push(x), n) =~= s.take(n));
    }
}

proof fn lemma_ranked_step(query: Seq<char>, cands: Seq<Seq<char>>, d: nat)
    requires
        d > 0,
    ensures
        ranked(query, cands, d) == ranked(query, cands, (d - 1) as nat) + at_distance(query, cands, d),
{
}

/// Find the closest matching strings to `query` from `candidates`.
/// Returns up to `max` suggestions within a reasonable edit distance.
pub fn closest_matches<'a>(query: &str, candidates: &'a [String], max: usize) -> (r: Vec<&'a str>)
    ensures
        r@.map_values(|s: &str| s@) == closest(query@, query.len() as int, views(candidates@), max as int),
{
    let ghost cands = views(candidates@);
    let lq = to_lowercase(query);
    let mut dists: Vec<usize> = Vec::new();
    let mut i: usize = 0;
    while i < candidates.len()
        invariant
            i <= candidates.len(),
            lq@ == lowercase(query@),
            cands == views(candidates@),
            dists@.len() == i,
            forall|k: int| 0 <= k < i ==> dists@[k] == match_distance(query@, cands[k]),
        decreases candidates.len() - i,
    {
        let lc = to_lowercase(candidates[i].as_str());
        let d = edit_distance(lq.as_str(), lc.as_str());
        dists.push(d);
        i = i + 1;
    }
    let t0 = query.len() / 3;
    let thr: usize = if t0 < 2 {
        2
    } else if t0 > 4 {
        4
    } else {
        t0
    };
    assert(thr == suggestion_threshold(query.len() as int));
    let mut res: Vec<&'a str> = Vec::new();
    let mut d: usize = 0;
    while d <= thr
        invariant
            thr <= 4,
            d <= thr + 1,
            cands == views(candidates@),
            dists@.len() == candidates@.len(),
            forall|k: int| 0 <= k < dists@.len() ==> dists@[k] == match_distance(query@, cands[k]),
            res@.map_values(|s: &str| s@) == take_at_most(
                if d == 0 {
                    Seq::<Seq<char>>::empty()
                } else {
                    ranked(query@, cands, (d - 1) as nat)
                },
                max as int,
            ),
        decreases thr + 1 - d,
    {
        let ghost before = if d == 0 {
            Seq::<Seq<char>>::empty()
        } else {
            ranked(query@, cands, (d - 1) as nat)
        };
        let mut i: usize = 0;
        while i < candidates.len()
            invariant
                thr <= 4,
                d <= thr,
                i <= candidates.len(),
                cands == views(candidates@),
                dists@.len() == candidates@.len(),
                forall|k: int| 0 <= k < dists@.len() ==> dists@[k] == match_distance(query@, cands[k]),
                res@.map_values(|s: &str| s@) == take_at_most(
                    before + at_distance(query@, cands.take(i as int), d as nat),
                    max as int,
                ),
            decreases candidates.len() - i,
        {
            let ghost old_res = res@.map_values(|s: &str| s@);
            let ghost acc = before + at_distance(query@, cands.take(i as int), d as nat);
            proof {
                assert(cands.take(i + 1).drop_last() =~= cands.take(i as int));
                assert(cands.take(i + 1).last() == cands[i as int]);
                lemma_take_at_most_push(acc, cands[i as int], max as int);
                assert(before + at_distance(query@, cands.take(i as int), d as nat).push(cands[i as int])
                    =~= acc.push(cands[i as int]));
            }
            if dists[i] == d {
                if res.len() < max {
                    res.push(candidates[i].as_str());
                    assert(res@.map_values(|s: &str| s@) =~= old_res.push(cands[i as int]));
                }
            }
            i = i + 1;
        }
        proof {
            assert(cands.take(candidates.len() as int) =~= cands);
            if d > 0 {
                lemma_ranked_step(query@, cands, d as nat);
            } else {
                assert(before + at_distance(query@, cands, 0) =~= ranked(query@, cands, 0));
            }
        }
        d = d + 1;
    }
    res
}

} // verus!

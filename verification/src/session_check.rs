//! Keeping a context's session alive: what follows an API probe, the
//! record of recent successful checks, and the pruning of stale isolated
//! kubeconfigs.

use vstd::prelude::*;
use crate::error::{ErrorKind, K8pkError};
use crate::strmap::StrMap;
use crate::login::{is_tls_error, tls_patterns};
use crate::text::{concat, contains_seq, has_suffix, lowercase, owned, str_contains, str_ends_with, str_eq, str_trim, trim};

verus! {

/// How probing the cluster's API went.
#[derive(Debug, Clone, Copy, PartialEq, Eq, Structural)]
pub enum ProbeResult {
    Alive,
    TlsError,
    Failed,
}

/// What to do after probing a context's session.
#[derive(Debug)]
pub enum SessionStep {
    /// The session works; record the success.
    Done,
    /// Ask whether to turn TLS verification off for the context, then probe again.
    OfferInsecure,
    /// Log in again.
    Relogin,
    /// Give up with this error.
    Fail(K8pkError),
}

/// The hint given with a TLS error when nobody can be asked.
pub open spec fn tls_retry_hint() -> Seq<char> {
    "Retry with: k8pk ctx <context> --insecure\n  Or add to config: insecure_contexts: [\"<pattern>\"]"@
}

/// The step after a failed session with nothing else to try: log in again
/// when someone can be asked, else report the session expired.
pub fn relogin_or_expire(context: &str, stdin_tty: bool) -> (r: SessionStep)
    ensures
        stdin_tty ==> r is Relogin,
        !stdin_tty ==> (r matches SessionStep::Fail(e) && e.is(ErrorKind::SessionExpired, context@)),
{
    if stdin_tty {
        SessionStep::Relogin
    } else {
        SessionStep::Fail(K8pkError::SessionExpired(owned(context)))
    }
}

/// The step after probing a context's session: done when alive; on a TLS
/// error, offer to skip verification when a terminal is at both ends, else
/// fail with a hint; on any other failure, log in again or report the
/// session expired.
pub fn session_step(probe: ProbeResult, context: &str, stdin_tty: bool, stderr_tty: bool) -> (r: SessionStep)
    ensures
        probe == ProbeResult::Alive ==> r is Done,
        probe == ProbeResult::TlsError && stdin_tty && stderr_tty ==> r is OfferInsecure,
        probe == ProbeResult::TlsError && !(stdin_tty && stderr_tty) ==> (r matches SessionStep::Fail(e)
            && e matches K8pkError::TlsCertificateError { context: c, hint: h } && c@ == context@ && h@ == tls_retry_hint()),
        probe == ProbeResult::Failed && stdin_tty ==> r is Relogin,
        probe == ProbeResult::Failed && !stdin_tty ==> (r matches SessionStep::Fail(e) && e.is(
            ErrorKind::SessionExpired,
            context@,
        )),
{
    match probe {
        ProbeResult::Alive => SessionStep::Done,
        ProbeResult::TlsError => {
            if stdin_tty && stderr_tty {
                SessionStep::OfferInsecure
            } else {
                SessionStep::Fail(
                    K8pkError::TlsCertificateError {
                        context: owned(context),
                        hint: owned(
                            "Retry with: k8pk ctx <context> --insecure\n  Or add to config: insecure_contexts: [\"<pattern>\"]",
                        ),
                    },
                )
            }
        },
        ProbeResult::Failed => relogin_or_expire(context, stdin_tty),
    }
}

// ---------------------------------------------------------------------------
// Recent successful checks
// ---------------------------------------------------------------------------

/// The most successful checks remembered.
pub const MAX_SESSION_MARKS: usize = 64;

/// The record of successful checks after marking `context` at `now`: the
/// mark added, then the oldest marks dropped while there are more than 64.
/// Every mark kept is at least as recent as every mark dropped.
pub open spec fn marks_kept(before: Map<Seq<char>, u64>, context: Seq<char>, now: u64, after: Map<Seq<char>, u64>) -> bool {
    let full = before.insert(context, now);
    &&& after.dom().subset_of(full.dom())
    &&& forall|k: Seq<char>| #[trigger] after.contains_key(k) ==> after[k] == full[k]
    &&& after.len() == if full.len() > MAX_SESSION_MARKS {
        MAX_SESSION_MARKS as nat
    } else {
        full.len()
    }
    &&& forall|k: Seq<char>, d: Seq<char>|
        #![trigger after.contains_key(k), full.contains_key(d)]
        after.contains_key(k) && full.contains_key(d) && !after.contains_key(d) ==> full[d] <= full[k]
}

/// The key of an oldest mark.
fn oldest_key(m: &StrMap<u64>) -> (r: String)
    requires
        m.wf(),
        m@.len() > 0,
    ensures
        m@.contains_key(r@),
        forall|k: Seq<char>| #[trigger] m@.contains_key(k) ==> m@[r@] <= m@[k],
{
    proof {
        m.lemma_key_order();
    }
    let keys = m.keys();
    let ghost ko = m.key_order();
    assert(keys@.map_values(|k: String| k@) == ko);
    assert(ko.len() > 0) by {
        if ko.len() == 0 {
            assert(ko.to_set() =~= Set::<Seq<char>>::empty());
        }
    }
    assert(ko.contains(keys@[0]@)) by {
        assert(ko[0] == keys@[0]@);
    }
    assert(ko.to_set().contains(keys@[0]@));
    let mut best: usize = 0;
    let mut best_ts: u64 = *m.get(keys[0].as_str()).unwrap();
    let mut i: usize = 1;
    while i < keys.len()
        invariant
            m.wf(),
            keys@.map_values(|k: String| k@) == ko,
            ko == m.key_order(),
            ko.to_set() == m@.dom(),
            1 <= i <= keys@.len(),
            best < keys@.len(),
            m@.contains_key(keys@[best as int]@),
            best_ts == m@[keys@[best as int]@],
            forall|j: int| 0 <= j < i ==> #[trigger] m@[keys@[j]@] >= best_ts,
        decreases keys.len() - i,
    {
        assert(ko[i as int] == keys@[i as int]@);
        assert(ko.to_set().contains(keys@[i as int]@));
        let t = *m.get(keys[i].as_str()).unwrap();
        if t < best_ts {
            best = i;
            best_ts = t;
        }
        i = i + 1;
    }
    assert forall|k: Seq<char>| #[trigger] m@.contains_key(k) implies m@[keys@[best as int]@] <= m@[k] by {
        assert(ko.to_set().contains(k));
        let j = choose|j: int| 0 <= j < ko.len() && ko[j] == k;
        assert(keys@[j]@ == k);
    }
    keys[best].clone()
}

/// Records a successful check of `context` at `now`, keeping at most the
/// 64 most recent marks.
pub fn mark_session(marks: &mut StrMap<u64>, context: &str, now: u64)
    requires
        old(marks).wf(),
    ensures
        final(marks).wf(),
        marks_kept(old(marks)@, context@, now, final(marks)@),
{
    let ghost before = marks@;
    marks.insert(owned(context), now);
    let ghost full = before.insert(context@, now);
    assert(marks@ == full);
    let ghost mut dropped: Set<Seq<char>> = Set::empty();
    proof {
        marks.lemma_key_order();
        vstd::seq_lib::seq_to_set_is_finite(marks.key_order());
        assert(full.dom().finite());
    }
    while marks.len() > MAX_SESSION_MARKS
        invariant
            marks.wf(),
            marks@.dom().subset_of(full.dom()),
            forall|k: Seq<char>| #[trigger] marks@.contains_key(k) ==> marks@[k] == full[k],
            full.dom().finite(),
            dropped.len() > 0 ==> marks@.len() >= MAX_SESSION_MARKS,
            marks@.len() + dropped.len() == full.len(),
            dropped.finite(),
            forall|d: Seq<char>| #[trigger] dropped.contains(d) <==> (full.contains_key(d) && !marks@.contains_key(d)),
            forall|k: Seq<char>, d: Seq<char>|
                #![trigger marks@.contains_key(k), dropped.contains(d)]
                marks@.contains_key(k) && dropped.contains(d) ==> full[d] <= full[k],
        decreases marks@.len(),
    {
        proof {
            marks.lemma_key_order();
            vstd::seq_lib::seq_to_set_is_finite(marks.key_order());
        }
        let victim = oldest_key(marks);
        let ghost prev = marks@;
        let _ = marks.remove(victim.as_str());
        proof {
            assert(marks@.dom() =~= prev.dom().remove(victim@));
            assert(!dropped.contains(victim@));
            dropped = dropped.insert(victim@);
            assert forall|k: Seq<char>, d: Seq<char>|
                #![trigger marks@.contains_key(k), dropped.contains(d)]
                marks@.contains_key(k) && dropped.contains(d) implies full[d] <= full[k] by {
                assert(prev.contains_key(k));
                if d == victim@ {
                    assert(prev[victim@] <= prev[k]);
                }
            }
        }
    }
    proof {
        if full.len() <= MAX_SESSION_MARKS && dropped.len() > 0 {
            assert(false);
        }
        assert forall|k: Seq<char>, d: Seq<char>|
            #![trigger marks@.contains_key(k), full.contains_key(d)]
            marks@.contains_key(k) && full.contains_key(d) && !marks@.contains_key(d) implies full[d] <= full[k] by {
            assert(dropped.contains(d));
        }
    }
}

// ---------------------------------------------------------------------------
// Stale isolated kubeconfigs
// ---------------------------------------------------------------------------

/// The seconds in a day.
pub const DAY_SECS: u64 = 86400;

/// Whether the stale-file pruning is due: not when the stamp file was
/// touched less than a day ago.
pub fn prune_due(stamp_age_secs: Option<u64>) -> (r: bool)
    ensures
        r == !(stamp_age_secs matches Some(a) && a < DAY_SECS),
{
    match stamp_age_secs {
        Some(a) => a >= DAY_SECS,
        None => true,
    }
}

/// Whether an isolated kubeconfig is stale: a `.yaml` file other than the
/// history, older than `max_age_days` (its age unknown when its time
/// cannot be read or lies ahead).
pub fn is_stale_kubeconfig(file_name: &str, age_secs: Option<u64>, max_age_days: u64) -> (r: bool)
    requires
        max_age_days * DAY_SECS <= u64::MAX,
    ensures
        r == (has_suffix(file_name@, ".yaml"@) && file_name@ != "history.yaml"@ && (age_secs matches Some(a)
            && a > max_age_days * DAY_SECS)),
{
    if !str_ends_with(file_name, ".yaml") || str_eq(file_name, "history.yaml") {
        return false;
    }
    match age_secs {
        Some(a) => a > max_age_days * DAY_SECS,
        None => false,
    }
}

// ---------------------------------------------------------------------------
// Reading a probe and the check after a login
// ---------------------------------------------------------------------------

/// What a probe's run says: the API answered when the command succeeded; a
/// failure whose error output speaks of TLS is a TLS problem; any other
/// failure, or a command that did not finish (`None`), is a failed probe.
pub fn probe_outcome(finished_ok: Option<bool>, stderr: &str) -> (r: ProbeResult)
    ensures
        r == match finished_ok {
            Some(true) => ProbeResult::Alive,
            Some(false) => if tls_error_text(stderr@) {
                ProbeResult::TlsError
            } else {
                ProbeResult::Failed
            },
            None => ProbeResult::Failed,
        },
{
    match finished_ok {
        Some(true) => ProbeResult::Alive,
        Some(false) => if is_tls_error(stderr) {
            ProbeResult::TlsError
        } else {
            ProbeResult::Failed
        },
        None => ProbeResult::Failed,
    }
}

/// Whether error output speaks of a TLS problem, as `is_tls_error` decides.
pub open spec fn tls_error_text(s: Seq<char>) -> bool {
    exists|i: int| 0 <= i < tls_patterns().len() && contains_seq(lowercase(s), #[trigger] tls_patterns()[i])
}

/// The output of a failed API check that means the cluster is not serving.
pub open spec fn api_down_text(e: Seq<char>) -> bool {
    contains_seq(e, "could not find the requested resource"@) || contains_seq(e, "NotFound"@) || contains_seq(e, "503"@)
        || contains_seq(e, "502"@) || contains_seq(e, "the server is currently unable"@)
}

/// What a failed API check after a login reports, from the check's error
/// output and its exit status.
pub open spec fn cluster_check_failure(stderr: Seq<char>, context: Seq<char>, exit: Seq<char>) -> Seq<char> {
    if api_down_text(stderr) {
        "cluster '"@ + context + "' authenticated but API is not responding. The cluster may be down or decommissioned."@
    } else if contains_seq(stderr, "Unauthorized"@) || contains_seq(stderr, "401"@) {
        "cluster '"@ + context + "' returned Unauthorized after login. Token may be invalid or expired immediately."@
    } else if stderr.len() > 0 {
        "cluster '"@ + context + "' check failed: "@ + trim(stderr)
    } else {
        "cluster '"@ + context + "' check failed (exit "@ + exit + ")"@
    }
}

/// The outcome of the API check made after a re-login: fine when it
/// succeeded, else the message `cluster_check_failure` gives.
pub fn cluster_check_outcome(success: bool, stderr: &str, context: &str, exit: &str) -> (r: Result<(), String>)
    ensures
        success ==> r is Ok,
        !success ==> (r matches Err(m) && m@ == cluster_check_failure(stderr@, context@, exit@)),
{
    if success {
        return Ok(());
    }
    let head = concat("cluster '", context);
    if str_contains(stderr, "could not find the requested resource") || str_contains(stderr, "NotFound")
        || str_contains(stderr, "503") || str_contains(stderr, "502") || str_contains(
        stderr,
        "the server is currently unable",
    ) {
        Err(concat(head.as_str(), "' authenticated but API is not responding. The cluster may be down or decommissioned."))
    } else if str_contains(stderr, "Unauthorized") || str_contains(stderr, "401") {
        Err(concat(head.as_str(), "' returned Unauthorized after login. Token may be invalid or expired immediately."))
    } else if stderr.unicode_len() > 0 {
        let t = str_trim(stderr);
        Err(concat(concat(head.as_str(), "' check failed: ").as_str(), t.as_str()))
    } else {
        Err(concat(concat(concat(head.as_str(), "' check failed (exit ").as_str(), exit).as_str(), ")"))
    }
}

/// Whether a failed check after a login leads to the offer to turn TLS
/// verification off: its message speaks of TLS and both stdin and stderr
/// are terminals.
pub fn post_check_offers_insecure(message: &str, stdin_tty: bool, stderr_tty: bool) -> (r: bool)
    ensures
        r == (tls_error_text(message@) && stdin_tty && stderr_tty),
{
    is_tls_error(message) && stdin_tty && stderr_tty
}

} // verus!

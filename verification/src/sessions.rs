//! The registry of active k8pk sessions across terminals: entries keyed by
//! the PID of the shell that owns them.

use vstd::prelude::*;
use crate::text::{concat, decimal, owned, u64_to_string};

verus! {

/// A registered k8pk session.
#[derive(Debug)]
pub struct SessionEntry {
    /// PID of the shell process owning this session.
    pub pid: u32,
    /// Kubernetes context active in this session.
    pub context: String,
    /// Namespace active in this session.
    pub namespace: String,
    /// Path to the isolated kubeconfig file.
    pub kubeconfig: String,
    /// Unix timestamp (seconds) when the session was registered.
    pub started_at: u64,
    /// Terminal identifier (e.g. "tmux", "tty:/dev/ttys003").
    pub terminal: String,
}

/// The content of a session entry.
pub struct SessionView {
    pub pid: u32,
    pub context: Seq<char>,
    pub namespace: Seq<char>,
    pub kubeconfig: Seq<char>,
    pub started_at: u64,
    pub terminal: Seq<char>,
}

impl View for SessionEntry {
    type V = SessionView;

    open spec fn view(&self) -> SessionView {
        SessionView {
            pid: self.pid,
            context: self.context@,
            namespace: self.namespace@,
            kubeconfig: self.kubeconfig@,
            started_at: self.started_at,
            terminal: self.terminal@,
        }
    }
}

/// The content of each entry.
pub open spec fn sessions_view(v: Seq<SessionEntry>) -> Seq<SessionView> {
    v.map_values(|e: SessionEntry| e@)
}

/// The entries whose PID is not `pid`, in order.
pub open spec fn without_pid(v: Seq<SessionView>, pid: u32) -> Seq<SessionView>
    decreases v.len(),
{
    if v.len() == 0 {
        Seq::empty()
    } else {
        let r = without_pid(v.drop_last(), pid);
        if v.last().pid != pid {
            r.push(v.last())
        } else {
            r
        }
    }
}

fn retain_other_pids(entries: Vec<SessionEntry>, pid: u32) -> (r: Vec<SessionEntry>)
    ensures
        sessions_view(r@) == without_pid(sessions_view(entries@), pid),
{
    let ghost ev = sessions_view(entries@);
    let mut rest = entries;
    let mut out: Vec<SessionEntry> = Vec::new();
    let ghost mut taken: Seq<SessionView> = Seq::empty();
    assert(ev =~= taken + sessions_view(rest@));
    while rest.len() > 0
        invariant
            ev == taken + sessions_view(rest@),
            sessions_view(out@) == without_pid(taken, pid),
        decreases rest.len(),
    {
        let ghost r0 = rest@;
        let e = rest.remove(0);
        proof {
            assert(sessions_view(r0) =~= seq![e@] + sessions_view(rest@));
            assert(taken.push(e@).drop_last() =~= taken);
            taken = taken.push(e@);
            assert(ev =~= taken + sessions_view(rest@));
        }
        if e.pid != pid {
            let ghost before = out@;
            out.push(e);
            assert(sessions_view(out@) =~= sessions_view(before).push(out@.last()@));
        }
    }
    assert(taken =~= ev);
    out
}

/// The registry after registering a session for `pid`: any entry for the
/// PID is replaced by the new one, which goes last; the namespace defaults
/// to `default`.
pub open spec fn registered(
    v: Seq<SessionView>,
    pid: u32,
    context: Seq<char>,
    namespace: Option<Seq<char>>,
    kubeconfig: Seq<char>,
    now: u64,
    terminal: Seq<char>,
) -> Seq<SessionView> {
    without_pid(v, pid).push(
        SessionView {
            pid,
            context,
            namespace: match namespace {
                Some(n) => n,
                None => "default"@,
            },
            kubeconfig,
            started_at: now,
            terminal,
        },
    )
}

/// Registers a session in the registry.
pub fn register(
    entries: Vec<SessionEntry>,
    context: &str,
    namespace: Option<&str>,
    kubeconfig_path: &str,
    pid: u32,
    now: u64,
    terminal: &str,
) -> (r: Vec<SessionEntry>)
    ensures
        sessions_view(r@) == registered(
            sessions_view(entries@),
            pid,
            context@,
            crate::login::opt_view(namespace),
            kubeconfig_path@,
            now,
            terminal@,
        ),
{
    let mut kept = retain_other_pids(entries, pid);
    let ns = match namespace {
        Some(n) => owned(n),
        None => owned("default"),
    };
    let ghost before = kept@;
    kept.push(SessionEntry {
        pid,
        context: owned(context),
        namespace: ns,
        kubeconfig: owned(kubeconfig_path),
        started_at: now,
        terminal: owned(terminal),
    });
    assert(sessions_view(kept@) =~= sessions_view(before).push(kept@.last()@));
    kept
}

/// Removes the session of `pid`; also whether there was one (the registry
/// needs writing back only then).
pub fn deregister(entries: Vec<SessionEntry>, pid: u32) -> (r: (Vec<SessionEntry>, bool))
    ensures
        sessions_view(r.0@) == without_pid(sessions_view(entries@), pid),
        r.1 == (r.0@.len() < entries@.len()),
{
    let before = entries.len();
    let kept = retain_other_pids(entries, pid);
    let changed = kept.len() < before;
    (kept, changed)
}

/// The sessions whose shell is still alive (`alive[i]` for entry `i`).
pub open spec fn alive_only(v: Seq<SessionView>, alive: Seq<bool>) -> Seq<SessionView>
    decreases v.len(),
{
    if v.len() == 0 {
        Seq::empty()
    } else {
        let r = alive_only(v.drop_last(), alive);
        if alive[v.len() - 1] {
            r.push(v.last())
        } else {
            r
        }
    }
}

/// The active sessions: those whose shell is alive; dead ones are pruned.
pub fn list_active(entries: Vec<SessionEntry>, alive: &[bool]) -> (r: Vec<SessionEntry>)
    requires
        alive@.len() == entries@.len(),
    ensures
        sessions_view(r@) == alive_only(sessions_view(entries@), alive@),
{
    let ghost ev = sessions_view(entries@);
    let mut rest = entries;
    let mut out: Vec<SessionEntry> = Vec::new();
    let mut i: usize = 0;
    assert(ev.take(0) =~= Seq::<SessionView>::empty());
    assert(ev.subrange(0, ev.len() as int) =~= ev);
    while rest.len() > 0
        invariant
            i + rest@.len() == ev.len(),
            alive@.len() == ev.len(),
            ev.subrange(i as int, ev.len() as int) == sessions_view(rest@),
            sessions_view(out@) == alive_only(ev.take(i as int), alive@),
        decreases rest.len(),
    {
        let ghost r0 = rest@;
        let e = rest.remove(0);
        proof {
            assert(sessions_view(r0) =~= seq![e@] + sessions_view(rest@));
            assert(ev[i as int] == sessions_view(r0)[0]);
            assert(ev.take(i + 1).drop_last() =~= ev.take(i as int));
            let sv = sessions_view(r0);
            assert(ev.subrange(i as int, ev.len() as int) == sv);
            assert(ev.subrange(i + 1, ev.len() as int) =~= sv.subrange(1, sv.len() as int));
            assert(sv.subrange(1, sv.len() as int) =~= sessions_view(rest@));
        }
        if alive[i] {
            let ghost before = out@;
            out.push(e);
            assert(sessions_view(out@) =~= sessions_view(before).push(out@.last()@));
        }
        i = i + 1;
    }
    assert(ev.take(i as int) =~= ev);
    out
}

/// How long ago something started, in the largest whole unit: seconds under
/// a minute, minutes under an hour, hours under a day, else days.
pub open spec fn age_text(now: u64, started_at: u64) -> Seq<char> {
    let elapsed: nat = if now >= started_at { (now - started_at) as nat } else { 0 };
    if elapsed < 60 {
        decimal(elapsed) + "s"@
    } else if elapsed < 3600 {
        decimal(elapsed / 60) + "m"@
    } else if elapsed < 86400 {
        decimal(elapsed / 3600) + "h"@
    } else {
        decimal(elapsed / 86400) + "d"@
    }
}

/// Formats the age of a session started at `started_at` as seen at `now`
/// (Unix seconds).
pub fn format_age(now: u64, started_at: u64) -> (r: String)
    ensures
        r@ == age_text(now, started_at),
{
    let elapsed: u64 = now.saturating_sub(started_at);
    if elapsed < 60 {
        concat(u64_to_string(elapsed).as_str(), "s")
    } else if elapsed < 3600 {
        concat(u64_to_string(elapsed / 60).as_str(), "m")
    } else if elapsed < 86400 {
        concat(u64_to_string(elapsed / 3600).as_str(), "h")
    } else {
        concat(u64_to_string(elapsed / 86400).as_str(), "d")
    }
}

} // verus!

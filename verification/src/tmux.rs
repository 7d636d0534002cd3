//! Tmux integration: window and session names, what tmux lists, and the
//! commands that open a context in a new window or session.

use vstd::prelude::*;
use crate::config::K8pkConfig;
use crate::kubeconfig::opt_str;
use crate::login::opt_view;
use crate::text::{
    chars_of, chars_strip_prefix, concat, owned, replace_seq, split_char, str_eq, str_replace,
    str_split, string_of, strip_prefix, views,
};

verus! {

/// A k8pk-managed tmux session or window.
#[derive(Debug)]
pub struct TmuxSession {
    pub window_index: String,
    pub window_name: String,
    pub context: String,
    pub namespace: String,
    pub active: bool,
}

/// The tmux mode a config asks for (`windows` when it names none).
pub open spec fn mode_of(config: Option<&K8pkConfig>) -> Seq<char> {
    match config {
        Some(c) => match c.tmux {
            Some(t) => t.mode@,
            None => "windows"@,
        },
        None => "windows"@,
    }
}

/// The tmux mode ("windows" or "sessions") from the config.
pub fn tmux_mode(config: Option<&K8pkConfig>) -> (r: String)
    ensures
        r@ == mode_of(config),
{
    if let Some(c) = config {
        if let Some(t) = &c.tmux {
            return owned(t.mode.as_str());
        }
    }
    owned("windows")
}

/// The name template a config asks for (`{context}` when it names none).
pub open spec fn template_of(config: Option<&K8pkConfig>) -> Seq<char> {
    match config {
        Some(c) => match c.tmux {
            Some(t) => match t.name_template {
                Some(n) => n@,
                None => "{context}"@,
            },
            None => "{context}"@,
        },
        None => "{context}"@,
    }
}

/// The window or session name for a context: the config's template with
/// `{context}` replaced by the context name.
pub fn format_name(config: Option<&K8pkConfig>, context: &str) -> (r: String)
    ensures
        r@ == replace_seq(template_of(config), "{context}"@, context@),
{
    let template: String = match config {
        Some(c) => match &c.tmux {
            Some(t) => match &t.name_template {
                Some(n) => owned(n.as_str()),
                None => owned("{context}"),
            },
            None => owned("{context}"),
        },
        None => owned("{context}"),
    };
    proof {
        reveal_strlit("{context}");
    }
    str_replace(template.as_str(), "{context}", context)
}

/// A name with the characters tmux treats specially (`.` and `:`) replaced
/// by `-`.
pub open spec fn tmux_safe(name: Seq<char>) -> Seq<char> {
    name.map_values(|c: char| if c == '.' || c == ':' { '-' } else { c })
}

/// Sanitizes a name for tmux.
pub fn sanitize_tmux_name(name: &str) -> (r: String)
    ensures
        r@ == tmux_safe(name@),
{
    let cs = chars_of(name);
    let mut out: Vec<char> = Vec::new();
    let mut i: usize = 0;
    while i < cs.len()
        invariant
            i <= cs@.len(),
            cs@ == name@,
            out@ == tmux_safe(cs@.take(i as int)),
        decreases cs.len() - i,
    {
        let c = cs[i];
        out.push(if c == '.' || c == ':' { '-' } else { c });
        assert(out@ =~= tmux_safe(cs@.take(i + 1)));
        i = i + 1;
    }
    assert(cs@.take(cs.len() as int) =~= cs@);
    string_of(&out)
}

/// The K8PK context and namespace in a process environment (`NAME=value`
/// entries): the last `K8PK_CONTEXT` and `K8PK_NAMESPACE` win; the namespace
/// reads `(default)` when unset; none without a context.
pub open spec fn pane_env(vars: Seq<Seq<char>>) -> (Option<Seq<char>>, Seq<char>)
    decreases vars.len(),
{
    if vars.len() == 0 {
        (None, "(default)"@)
    } else {
        let (c, n) = pane_env(vars.drop_last());
        let v = vars.last();
        (
            match strip_prefix(v, "K8PK_CONTEXT="@) {
                Some(x) => Some(x),
                None => c,
            },
            match strip_prefix(v, "K8PK_NAMESPACE="@) {
                Some(x) => x,
                None => n,
            },
        )
    }
}

/// The K8PK context and namespace found among a pane's environment entries.
pub fn read_pane_env(vars: &[String]) -> (r: Option<(String, String)>)
    ensures
        match pane_env(views(vars@)).0 {
            Some(c) => r matches Some((rc, rn)) && rc@ == c && rn@ == pane_env(views(vars@)).1,
            None => r is None,
        },
{
    let ghost vv = views(vars@);
    let ctx_prefix = chars_of("K8PK_CONTEXT=");
    let ns_prefix = chars_of("K8PK_NAMESPACE=");
    let mut context: Option<Vec<char>> = None;
    let mut namespace: Vec<char> = chars_of("(default)");
    let mut i: usize = 0;
    assert(vv.take(0) =~= Seq::<Seq<char>>::empty());
    while i < vars.len()
        invariant
            i <= vars@.len(),
            vv == views(vars@),
            ctx_prefix@ == "K8PK_CONTEXT="@,
            ns_prefix@ == "K8PK_NAMESPACE="@,
            match context {
                Some(c) => pane_env(vv.take(i as int)).0 == Some(c@),
                None => pane_env(vv.take(i as int)).0 is None,
            },
            namespace@ == pane_env(vv.take(i as int)).1,
        decreases vars.len() - i,
    {
        assert(vv.take(i + 1).drop_last() =~= vv.take(i as int));
        let v = chars_of(vars[i].as_str());
        if let Some(x) = chars_strip_prefix(&v, &ctx_prefix) {
            context = Some(x);
        }
        if let Some(x) = chars_strip_prefix(&v, &ns_prefix) {
            namespace = x;
        }
        i = i + 1;
    }
    assert(vv.take(vars.len() as int) =~= vv);
    match context {
        Some(c) => Some((string_of(&c), string_of(&namespace))),
        None => None,
    }
}

/// One line of `tmux list-windows` output (index, name, pane PID, active
/// flag, tab-separated): its fields when there are at least four.
pub open spec fn window_line(line: Seq<char>) -> Option<(Seq<char>, Seq<char>, Seq<char>, bool)> {
    let parts = split_char(line, '\t');
    if parts.len() < 4 {
        None
    } else {
        Some((parts[0], parts[1], parts[2], parts[3] == "1"@))
    }
}

/// Parses one line of `tmux list-windows` output.
pub fn parse_window_line(line: &str) -> (r: Option<(String, String, String, bool)>)
    ensures
        match window_line(line@) {
            Some((a, b, c, d)) => r matches Some((ra, rb, rc, rd)) && ra@ == a && rb@ == b && rc@ == c && rd == d,
            None => r is None,
        },
{
    proof {
        reveal_strlit("\t");
    }
    let parts = str_split(line, "\t");
    let ghost pv = parts@.map_values(|v: Vec<char>| v@);
    assert("\t"@ =~= seq!['\t']);
    if parts.len() < 4 {
        return None;
    }
    let one = chars_of("1");
    let active = crate::text::chars_eq(&parts[3], &one);
    assert(pv[0] == parts@[0]@);
    assert(pv[1] == parts@[1]@);
    assert(pv[2] == parts@[2]@);
    assert(pv[3] == parts@[3]@);
    Some((string_of(&parts[0]), string_of(&parts[1]), string_of(&parts[2]), active))
}

/// One line of `tmux list-sessions` output (name, attached flag): its
/// fields when there are at least two.
pub open spec fn session_line(line: Seq<char>) -> Option<(Seq<char>, bool)> {
    let parts = split_char(line, '\t');
    if parts.len() < 2 {
        None
    } else {
        Some((parts[0], parts[1] == "1"@))
    }
}

/// Parses one line of `tmux list-sessions` output.
pub fn parse_session_line(line: &str) -> (r: Option<(String, bool)>)
    ensures
        match session_line(line@) {
            Some((a, b)) => r matches Some((ra, rb)) && ra@ == a && rb == b,
            None => r is None,
        },
{
    proof {
        reveal_strlit("\t");
    }
    let parts = str_split(line, "\t");
    let ghost pv = parts@.map_values(|v: Vec<char>| v@);
    assert("\t"@ =~= seq!['\t']);
    if parts.len() < 2 {
        return None;
    }
    let one = chars_of("1");
    let attached = crate::text::chars_eq(&parts[1], &one);
    assert(pv[0] == parts@[0]@);
    assert(pv[1] == parts@[1]@);
    Some((string_of(&parts[0]), attached))
}

/// The `-e NAME=value` arguments that give a new tmux window or session the
/// k8pk environment of a context.
pub open spec fn env_args(kubeconfig: Seq<char>, cache_dir: Seq<char>, context: Seq<char>, display: Seq<char>, ns: Seq<char>) -> Seq<Seq<char>> {
    seq![
        "-e"@,
        "KUBECONFIG="@ + kubeconfig,
        "-e"@,
        "KUBECACHEDIR="@ + cache_dir,
        "-e"@,
        "K8PK_CONTEXT="@ + context,
        "-e"@,
        "K8PK_CONTEXT_DISPLAY="@ + display,
        "-e"@,
        "K8PK_DEPTH=1"@,
        "-e"@,
        "K8PK_NAMESPACE="@ + ns,
        "-e"@,
        "OC_NAMESPACE="@ + ns,
    ]
}

/// The arguments of `tmux new-window` (or, with `session`, of `tmux
/// new-session -d`) that open a context.
pub open spec fn new_target_args(session: bool, name: Seq<char>, kubeconfig: Seq<char>, cache_dir: Seq<char>, context: Seq<char>, display: Seq<char>, ns: Seq<char>) -> Seq<Seq<char>> {
    (if session {
        seq!["new-session"@, "-d"@, "-s"@, name]
    } else {
        seq!["new-window"@, "-n"@, name]
    }) + env_args(kubeconfig, cache_dir, context, display, ns)
}

fn push_str(v: &mut Vec<String>, s: String)
    ensures
        views(final(v)@) == views(old(v)@).push(s@),
{
    let ghost before = v@;
    v.push(s);
    assert(views(v@) =~= views(before).push(s@));
}

/// Builds the tmux arguments that open a context in a new window or session;
/// the namespace defaults to `default`.
pub fn new_target_command(
    session: bool,
    name: &str,
    kubeconfig: &str,
    cache_dir: &str,
    context: &str,
    display: &str,
    namespace: Option<&str>,
) -> (r: Vec<String>)
    ensures
        views(r@) == new_target_args(
            session,
            name@,
            kubeconfig@,
            cache_dir@,
            context@,
            display@,
            match namespace {
                Some(n) => n@,
                None => "default"@,
            },
        ),
{
    let ns: &str = match namespace {
        Some(n) => n,
        None => "default",
    };
    let mut v: Vec<String> = Vec::new();
    assert(views(v@) =~= Seq::<Seq<char>>::empty());
    if session {
        push_str(&mut v, owned("new-session"));
        push_str(&mut v, owned("-d"));
        push_str(&mut v, owned("-s"));
        push_str(&mut v, owned(name));
    } else {
        push_str(&mut v, owned("new-window"));
        push_str(&mut v, owned("-n"));
        push_str(&mut v, owned(name));
    }
    push_str(&mut v, owned("-e"));
    push_str(&mut v, concat("KUBECONFIG=", kubeconfig));
    push_str(&mut v, owned("-e"));
    push_str(&mut v, concat("KUBECACHEDIR=", cache_dir));
    push_str(&mut v, owned("-e"));
    push_str(&mut v, concat("K8PK_CONTEXT=", context));
    push_str(&mut v, owned("-e"));
    push_str(&mut v, concat("K8PK_CONTEXT_DISPLAY=", display));
    push_str(&mut v, owned("-e"));
    push_str(&mut v, owned("K8PK_DEPTH=1"));
    push_str(&mut v, owned("-e"));
    push_str(&mut v, concat("K8PK_NAMESPACE=", ns));
    push_str(&mut v, owned("-e"));
    push_str(&mut v, concat("OC_NAMESPACE=", ns));
    assert(views(v@) =~= new_target_args(session, name@, kubeconfig@, cache_dir@, context@, display@, ns@));
    v
}

/// The k8pk context and namespace in the environment that `ps eww` shows
/// for a pane's process (its words).
pub fn pane_env_from_ps(stdout: &str) -> (r: Option<(String, String)>)
    ensures
        match r {
            Some((c, n)) => pane_env(crate::wizard::words(stdout@)) == (Some(c@), n@),
            None => pane_env(crate::wizard::words(stdout@)).0 is None,
        },
{
    let ws = crate::wizard::split_words(stdout);
    read_pane_env(ws.as_slice())
}

/// The k8pk context and namespace in a process's environment block
/// (`NUL`-separated entries).
pub fn pane_env_from_environ(data: &str) -> (r: Option<(String, String)>)
    ensures
        match r {
            Some((c, n)) => pane_env(crate::text::split_seq(data@, seq!['\0'])) == (Some(c@), n@),
            None => pane_env(crate::text::split_seq(data@, seq!['\0'])).0 is None,
        },
{
    let sep = crate::text::string_of(&['\0']);
    assert(sep@ =~= seq!['\0']);
    let parts = crate::text::str_split(data, sep.as_str());
    let mut vars: Vec<String> = Vec::new();
    let mut i: usize = 0;
    while i < parts.len()
        invariant
            i <= parts@.len(),
            views(vars@) == parts@.take(i as int).map_values(|v: Vec<char>| v@),
        decreases parts.len() - i,
    {
        let ghost before = views(vars@);
        let v = crate::text::string_of(parts[i].as_slice());
        vars.push(v);
        assert(views(vars@) =~= before.push(parts@[i as int]@));
        assert(parts@.take(i + 1).map_values(|v: Vec<char>| v@) =~= parts@.take(i as int).map_values(
            |v: Vec<char>| v@,
        ).push(parts@[i as int]@));
        i = i + 1;
    }
    assert(parts@.take(parts@.len() as int) =~= parts@);
    read_pane_env(vars.as_slice())
}

/// Whether tmux's window list (one name per line) has a window called `name`.
pub fn has_window(list: &str, name: &str) -> (r: bool)
    ensures
        r == crate::text::lines(list@).contains(name@),
{
    let cs = crate::text::chars_of(list);
    let ls = crate::text::chars_lines(cs.as_slice());
    let ghost lv = ls@.map_values(|v: Vec<char>| v@);
    let mut i: usize = 0;
    while i < ls.len()
        invariant
            i <= ls@.len(),
            lv == ls@.map_values(|v: Vec<char>| v@),
            lv == crate::text::lines(list@),
            forall|j: int| 0 <= j < i ==> lv[j] != name@,
        decreases ls.len() - i,
    {
        let l = crate::text::string_of(ls[i].as_slice());
        if str_eq(l.as_str(), name) {
            assert(lv[i as int] == name@);
            return true;
        }
        i = i + 1;
    }
    false
}

} // verus!

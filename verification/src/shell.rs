//! Opening a shell in a context, running a command in one, and the extra
//! completion script for each shell.

use vstd::prelude::*;
use crate::error::{ErrorKind, K8pkError};
use crate::state::CurrentState;
use crate::text::{concat, decimal, owned, str_eq, u64_to_string, views};
use crate::kubeconfig::{
    cluster_type, detect_cluster_type, extract_server_url_from_cluster, friendly_context_name, friendly_name,
    server_url, KubeConfig,
};
use crate::login::opt_view;

verus! {

/// The deepest nesting of k8pk shells allowed.
pub const MAX_SHELL_DEPTH: u32 = 10;

impl CurrentState {
    /// The depth of a shell opened from this one.
    pub fn next_depth(&self) -> (r: u32)
        ensures
            r == if self.depth < u32::MAX { (self.depth + 1) as u32 } else { u32::MAX },
    {
        self.depth.saturating_add(1)
    }
}

/// How a context's shell is opened.
#[derive(Debug, Clone, Copy, PartialEq, Eq, Structural)]
pub enum SpawnStep {
    /// Switch to, or create, a tmux session.
    TmuxSession,
    /// Switch to, or create, a tmux window.
    TmuxWindow,
    /// Start a nested shell at this depth.
    Shell(u32),
}

/// The text of the error for too deep a nesting.
pub open spec fn too_deep_text() -> Seq<char> {
    "maximum shell nesting depth (10) reached. Use 'exit' to leave nested shells, or use eval-based switching: eval $(k8pk ctx ...)"@
}

/// Decides how to open a shell, bypassing tmux: a nested shell one level
/// deeper, unless that passes the deepest nesting allowed.
pub fn spawn_shell_no_tmux(state: &CurrentState) -> (r: Result<SpawnStep, K8pkError>)
    ensures
        ({
            let d = if state.depth < u32::MAX { (state.depth + 1) as u32 } else { u32::MAX };
            if d > 10 {
                r matches Err(e) && e.is(ErrorKind::InvalidArgument, too_deep_text())
            } else {
                r == Ok::<SpawnStep, K8pkError>(SpawnStep::Shell(d))
            }
        }),
{
    let d = state.next_depth();
    if d > MAX_SHELL_DEPTH {
        return Err(K8pkError::InvalidArgument(owned(
            "maximum shell nesting depth (10) reached. Use 'exit' to leave nested shells, or use eval-based switching: eval $(k8pk ctx ...)",
        )));
    }
    Ok(SpawnStep::Shell(d))
}

/// Decides how to open a shell: inside tmux, a session or window as the
/// tmux mode says; otherwise a nested shell.
pub fn spawn_shell(in_tmux: bool, tmux_mode: &str, state: &CurrentState) -> (r: Result<SpawnStep, K8pkError>)
    ensures
        in_tmux ==> r == Ok::<SpawnStep, K8pkError>(
            if tmux_mode@ == "sessions"@ { SpawnStep::TmuxSession } else { SpawnStep::TmuxWindow },
        ),
        !in_tmux ==> ({
            let d = if state.depth < u32::MAX { (state.depth + 1) as u32 } else { u32::MAX };
            if d > 10 {
                r matches Err(e) && e.is(ErrorKind::InvalidArgument, too_deep_text())
            } else {
                r == Ok::<SpawnStep, K8pkError>(SpawnStep::Shell(d))
            }
        }),
{
    if in_tmux {
        if str_eq(tmux_mode, "sessions") {
            return Ok(SpawnStep::TmuxSession);
        }
        return Ok(SpawnStep::TmuxWindow);
    }
    spawn_shell_no_tmux(state)
}

/// Structured result of running a command in a context.
#[derive(Debug)]
pub struct ExecResult {
    pub context: String,
    pub namespace: String,
    pub exit_code: i32,
    pub stdout: String,
    pub stderr: String,
}

/// Splits a command line into program and arguments; an empty one is an error.
pub fn split_command(command: &[String]) -> (r: Result<(String, Vec<String>), K8pkError>)
    ensures
        command@.len() == 0 ==> (r matches Err(e) && e.is(ErrorKind::InvalidArgument, "no command specified after '--'"@)),
        command@.len() > 0 ==> (r matches Ok((p, args)) && p@ == command@[0]@
            && views(args@) == views(command@).subrange(1, command@.len() as int)),
{
    if command.len() == 0 {
        return Err(K8pkError::InvalidArgument(owned("no command specified after '--'")));
    }
    let mut args: Vec<String> = Vec::new();
    let mut i: usize = 1;
    while i < command.len()
        invariant
            1 <= i <= command@.len(),
            args@.len() == i - 1,
            forall|j: int| 0 <= j < i - 1 ==> (#[trigger] args@[j])@ == command@[j + 1]@,
        decreases command.len() - i,
    {
        args.push(owned(command[i].as_str()));
        i = i + 1;
    }
    assert(views(args@) =~= views(command@).subrange(1, command@.len() as int));
    Ok((owned(command[0].as_str()), args))
}

/// The dynamic completion script added after clap's completions for a
/// shell, or the error for a shell without completions.
pub open spec fn completion_extra(shell: Seq<char>) -> Result<Seq<char>, Seq<char>> {
    if shell == "bash"@ {
        Ok("
# Dynamic context completions for ctx subcommand
_k8pk_dynamic_ctx() {
    local cur=\"${COMP_WORDS[COMP_CWORD]}\"
    if [[ \"${COMP_WORDS[1]}\" == \"ctx\" && $COMP_CWORD -eq 2 ]]; then
        COMPREPLY=($(compgen -W \"$(k8pk complete contexts 2>/dev/null)\" -- \"$cur\"))
    elif [[ \"${COMP_WORDS[1]}\" == \"ns\" && $COMP_CWORD -eq 2 ]]; then
        COMPREPLY=($(compgen -W \"$(k8pk complete namespaces 2>/dev/null)\" -- \"$cur\"))
    fi
}
complete -F _k8pk_dynamic_ctx k8pk
"@)
    } else if shell == "zsh"@ {
        Ok("
# Dynamic context/namespace completions
_k8pk_contexts() {
    local -a contexts
    contexts=(${(f)\"$(k8pk complete contexts 2>/dev/null)\"})
    _describe 'context' contexts
}
_k8pk_namespaces() {
    local -a namespaces
    namespaces=(${(f)\"$(k8pk complete namespaces 2>/dev/null)\"})
    _describe 'namespace' namespaces
}
"@)
    } else if shell == "fish"@ {
        Ok("
# Dynamic context completions
complete -c k8pk -n '__fish_seen_subcommand_from ctx' -f -a '(k8pk complete contexts 2>/dev/null)'
complete -c k8pk -n '__fish_seen_subcommand_from ns' -f -a '(k8pk complete namespaces 2>/dev/null)'
"@)
    } else {
        Err(shell)
    }
}

/// The dynamic completion script for a shell.
pub fn completion_script_extra(shell: &str) -> (r: Result<String, K8pkError>)
    ensures
        match completion_extra(shell@) {
            Ok(t) => r matches Ok(s) && s@ == t,
            Err(m) => r matches Err(e) && e.is(ErrorKind::UnsupportedShell, m),
        },
{
    if str_eq(shell, "bash") {
        Ok(owned("
# Dynamic context completions for ctx subcommand
_k8pk_dynamic_ctx() {
    local cur=\"${COMP_WORDS[COMP_CWORD]}\"
    if [[ \"${COMP_WORDS[1]}\" == \"ctx\" && $COMP_CWORD -eq 2 ]]; then
        COMPREPLY=($(compgen -W \"$(k8pk complete contexts 2>/dev/null)\" -- \"$cur\"))
    elif [[ \"${COMP_WORDS[1]}\" == \"ns\" && $COMP_CWORD -eq 2 ]]; then
        COMPREPLY=($(compgen -W \"$(k8pk complete namespaces 2>/dev/null)\" -- \"$cur\"))
    fi
}
complete -F _k8pk_dynamic_ctx k8pk
"))
    } else if str_eq(shell, "zsh") {
        Ok(owned("
# Dynamic context/namespace completions
_k8pk_contexts() {
    local -a contexts
    contexts=(${(f)\"$(k8pk complete contexts 2>/dev/null)\"})
    _describe 'context' contexts
}
_k8pk_namespaces() {
    local -a namespaces
    namespaces=(${(f)\"$(k8pk complete namespaces 2>/dev/null)\"})
    _describe 'namespace' namespaces
}
"))
    } else if str_eq(shell, "fish") {
        Ok(owned("
# Dynamic context completions
complete -c k8pk -n '__fish_seen_subcommand_from ctx' -f -a '(k8pk complete contexts 2>/dev/null)'
complete -c k8pk -n '__fish_seen_subcommand_from ns' -f -a '(k8pk complete namespaces 2>/dev/null)'
"))
    } else {
        Err(K8pkError::UnsupportedShell(owned(shell)))
    }
}

// ---------------------------------------------------------------------------
// The environment of a context's shell or command
// ---------------------------------------------------------------------------

/// The login shell: `$SHELL`, else `/bin/sh`.
pub fn login_shell(shell_var: Option<&str>) -> (r: String)
    ensures
        r@ == match shell_var {
            Some(s) => s@,
            None => "/bin/sh"@,
        },
{
    match shell_var {
        Some(s) => owned(s),
        None => owned("/bin/sh"),
    }
}

/// The server of the first cluster of a kubeconfig.
pub open spec fn first_server(c: crate::kubeconfig::KubeConfigView) -> Option<Seq<char>> {
    if c.clusters.len() > 0 {
        server_url(c.clusters[0].rest)
    } else {
        None
    }
}

/// The name a context's shell shows: its friendly name, by the cluster type
/// its name and its kubeconfig's first server suggest.
pub fn shell_display_name(cfg: &KubeConfig, context: &str) -> (r: String)
    ensures
        r@ == friendly_name(context@, cluster_type(context@, first_server(cfg@))),
{
    let server = if cfg.clusters.len() > 0 {
        extract_server_url_from_cluster(&cfg.clusters[0].rest)
    } else {
        None
    };
    let t = match &server {
        Some(u) => detect_cluster_type(context, Some(u.as_str())),
        None => detect_cluster_type(context, None),
    };
    friendly_context_name(context, t)
}

/// Name and value pairs, by their content.
pub open spec fn pairs_view(v: Seq<(String, String)>) -> Seq<(Seq<char>, Seq<char>)> {
    v.map_values(|p: (String, String)| (p.0@, p.1@))
}

/// The namespace variables, when a namespace is set.
pub open spec fn namespace_vars(namespace: Option<Seq<char>>) -> Seq<(Seq<char>, Seq<char>)> {
    match namespace {
        Some(ns) => seq![("K8PK_NAMESPACE"@, ns), ("OC_NAMESPACE"@, ns)],
        None => Seq::empty(),
    }
}

fn push_pair(v: &mut Vec<(String, String)>, k: &str, val: &str)
    ensures
        pairs_view(final(v)@) == pairs_view(old(v)@).push((k@, val@)),
{
    let ghost before = pairs_view(v@);
    v.push((owned(k), owned(val)));
    assert(pairs_view(v@) =~= before.push((k@, val@)));
}

/// The environment a context's shell starts with.
pub fn shell_env(kubeconfig: &str, context: &str, display: &str, depth: u32, namespace: Option<&str>) -> (r: Vec<(String, String)>)
    ensures
        pairs_view(r@) == seq![
            ("KUBECONFIG"@, kubeconfig@),
            ("K8PK_CONTEXT"@, context@),
            ("K8PK_CONTEXT_DISPLAY"@, display@),
            ("K8PK_DEPTH"@, decimal(depth as nat)),
        ] + namespace_vars(opt_view(namespace)),
{
    let mut v: Vec<(String, String)> = Vec::new();
    assert(pairs_view(v@) =~= Seq::<(Seq<char>, Seq<char>)>::empty());
    push_pair(&mut v, "KUBECONFIG", kubeconfig);
    push_pair(&mut v, "K8PK_CONTEXT", context);
    push_pair(&mut v, "K8PK_CONTEXT_DISPLAY", display);
    let d = u64_to_string(depth as u64);
    push_pair(&mut v, "K8PK_DEPTH", d.as_str());
    if let Some(ns) = namespace {
        push_pair(&mut v, "K8PK_NAMESPACE", ns);
        push_pair(&mut v, "OC_NAMESPACE", ns);
    }
    assert(pairs_view(v@) =~= seq![
        ("KUBECONFIG"@, kubeconfig@),
        ("K8PK_CONTEXT"@, context@),
        ("K8PK_CONTEXT_DISPLAY"@, display@),
        ("K8PK_DEPTH"@, decimal(depth as nat)),
    ] + namespace_vars(opt_view(namespace)));
    v
}

/// The environment a command run in a context gets.
pub fn exec_env(kubeconfig: &str, cache_dir: &str, context: &str, namespace: Option<&str>) -> (r: Vec<(String, String)>)
    ensures
        pairs_view(r@) == seq![
            ("KUBECONFIG"@, kubeconfig@),
            ("KUBECACHEDIR"@, cache_dir@),
            ("K8PK_CONTEXT"@, context@),
        ] + namespace_vars(opt_view(namespace)),
{
    let mut v: Vec<(String, String)> = Vec::new();
    assert(pairs_view(v@) =~= Seq::<(Seq<char>, Seq<char>)>::empty());
    push_pair(&mut v, "KUBECONFIG", kubeconfig);
    push_pair(&mut v, "KUBECACHEDIR", cache_dir);
    push_pair(&mut v, "K8PK_CONTEXT", context);
    if let Some(ns) = namespace {
        push_pair(&mut v, "K8PK_NAMESPACE", ns);
        push_pair(&mut v, "OC_NAMESPACE", ns);
    }
    assert(pairs_view(v@) =~= seq![
        ("KUBECONFIG"@, kubeconfig@),
        ("KUBECACHEDIR"@, cache_dir@),
        ("K8PK_CONTEXT"@, context@),
    ] + namespace_vars(opt_view(namespace)));
    v
}

/// The environment of the start hook run before a context's shell opens.
pub fn start_hook_env(context: &str, namespace: Option<&str>) -> (r: Vec<(String, String)>)
    ensures
        pairs_view(r@) == seq![
            ("K8PK_HOOK_PHASE"@, "start"@),
            ("K8PK_CONTEXT"@, context@),
            ("K8PK_NAMESPACE"@, match namespace {
                Some(n) => n@,
                None => ""@,
            }),
        ],
{
    let mut v: Vec<(String, String)> = Vec::new();
    assert(pairs_view(v@) =~= Seq::<(Seq<char>, Seq<char>)>::empty());
    push_pair(&mut v, "K8PK_HOOK_PHASE", "start");
    push_pair(&mut v, "K8PK_CONTEXT", context);
    let ns = match namespace {
        Some(n) => n,
        None => "",
    };
    push_pair(&mut v, "K8PK_NAMESPACE", ns);
    assert(pairs_view(v@) =~= seq![
        ("K8PK_HOOK_PHASE"@, "start"@),
        ("K8PK_CONTEXT"@, context@),
        ("K8PK_NAMESPACE"@, ns@),
    ]);
    v
}

/// The note shown when entering a nested shell.
pub fn nesting_note(depth: u32) -> (r: Option<String>)
    ensures
        depth > 1 ==> (r matches Some(n) && n@ == "Note: entering nested k8pk shell (depth "@ + decimal(depth as nat)
            + "). Use 'exit' to return to the parent shell."@),
        depth <= 1 ==> r is None,
{
    if depth > 1 {
        let d = u64_to_string(depth as u64);
        let a = concat("Note: entering nested k8pk shell (depth ", d.as_str());
        Some(concat(a.as_str(), "). Use 'exit' to return to the parent shell."))
    } else {
        None
    }
}

/// The header shown before a command runs in a context.
pub fn exec_header(context: &str, namespace: Option<&str>) -> (r: String)
    ensures
        r@ == "CONTEXT => "@ + context@ + " (namespace: "@ + match namespace {
            Some(n) => n@,
            None => "(default)"@,
        } + ")"@,
{
    let ns = match namespace {
        Some(n) => n,
        None => "(default)",
    };
    let a = concat("CONTEXT => ", context);
    let b = concat(a.as_str(), " (namespace: ");
    let c = concat(b.as_str(), ns);
    concat(c.as_str(), ")")
}

/// The structured result of a command run in a context: its namespace (or
/// `(default)`), its exit code (1 when killed by a signal) and its output.
pub fn exec_result(context: &str, namespace: Option<&str>, code: Option<i32>, stdout: String, stderr: String) -> (r: ExecResult)
    ensures
        r.context@ == context@,
        r.namespace@ == match namespace {
            Some(n) => n@,
            None => "(default)"@,
        },
        r.exit_code == match code {
            Some(c) => c,
            None => 1,
        },
        r.stdout@ == stdout@,
        r.stderr@ == stderr@,
{
    ExecResult {
        context: owned(context),
        namespace: match namespace {
            Some(n) => owned(n),
            None => owned("(default)"),
        },
        exit_code: match code {
            Some(c) => c,
            None => 1,
        },
        stdout,
        stderr,
    }
}

/// An exit code as text, with a minus sign when it is negative.
pub open spec fn int_text(n: int) -> Seq<char> {
    if n < 0 {
        "-"@ + decimal((-n) as nat)
    } else {
        decimal(n as nat)
    }
}

fn i32_text(n: i32) -> (r: String)
    ensures
        r@ == int_text(n as int),
{
    if n < 0 {
        let m: i64 = -(n as i64);
        let d = u64_to_string(m as u64);
        concat("-", d.as_str())
    } else {
        u64_to_string(n as u64)
    }
}

/// The error of `k8pk exec --fail-early` when the command fails in a context.
pub fn exec_failed_in(context: &str, code: i32) -> (e: K8pkError)
    ensures
        e.is(ErrorKind::CommandFailed, "command failed in context '"@ + context@ + "' with exit code "@ + int_text(code as int)),
{
    let a = concat("command failed in context '", context);
    let b = concat(a.as_str(), "' with exit code ");
    let c = i32_text(code);
    K8pkError::CommandFailed(concat(b.as_str(), c.as_str()))
}

/// The error of `k8pk exec` when the command failed somewhere, naming the
/// last failing exit code.
pub fn exec_failed(code: i32) -> (e: K8pkError)
    ensures
        e.is(ErrorKind::CommandFailed, "command failed with exit code "@ + int_text(code as int)),
{
    let c = i32_text(code);
    K8pkError::CommandFailed(concat("command failed with exit code ", c.as_str()))
}

// ---------------------------------------------------------------------------
// Editor command
// ---------------------------------------------------------------------------

/// The words shell-words splits a command line into; `None` when it reports
/// a missing closing quote.
pub uninterp spec fn shell_split(s: Seq<char>) -> Option<Seq<Seq<char>>>;

/// Splits a command line into words as a POSIX shell would; calls
/// `shell_words::split`, whose result is named `shell_split` (its only
/// error is a missing closing quote, given as `None`).
#[verifier::external_body]
pub fn split_shell_words(s: &str) -> (r: Option<Vec<String>>)
    ensures
        match r {
            Some(v) => shell_split(s@) == Some(views(v@)),
            None => shell_split(s@) is None,
        },
{
    match shell_words::split(s) {
        Ok(v) => Some(v),
        Err(_) => None,
    }
}

/// The editor command line used: the one given, else the environment's
/// editor, else `vim`.
pub open spec fn editor_line(editor: Option<Seq<char>>, env_editor: Option<Seq<char>>) -> Seq<char> {
    match editor {
        Some(e) => e,
        None => match env_editor {
            Some(e) => e,
            None => "vim"@,
        },
    }
}

/// The program and arguments of the editor command: the line chosen as
/// `editor_line` says, split into words; an invalid-argument error when the
/// line has an unclosed quote or no words.
pub fn editor_command_words(editor: Option<&str>, env_editor: Option<&str>) -> (r: Result<(String, Vec<String>), K8pkError>)
    ensures
        ({
            let line = editor_line(opt_view(editor), opt_view(env_editor));
            match shell_split(line) {
                None => r matches Err(K8pkError::InvalidArgument(m)) && m@ == "invalid editor command '"@ + line
                    + "': missing closing quote"@,
                Some(ws) => if ws.len() == 0 {
                    r matches Err(K8pkError::InvalidArgument(m)) && m@ == "editor command is empty"@
                } else {
                    r matches Ok((program, args)) && program@ == ws[0] && views(args@) == ws.drop_first()
                },
            }
        }),
{
    let line = match editor {
        Some(e) => e,
        None => match env_editor {
            Some(e) => e,
            None => "vim",
        },
    };
    match split_shell_words(line) {
        None => {
            let m = concat(concat("invalid editor command '", line).as_str(), "': missing closing quote");
            Err(K8pkError::InvalidArgument(m))
        },
        Some(words) => {
            if words.len() == 0 {
                Err(K8pkError::InvalidArgument(owned("editor command is empty")))
            } else {
                let program = owned(words[0].as_str());
                let mut args: Vec<String> = Vec::new();
                let mut i: usize = 1;
                while i < words.len()
                    invariant
                        1 <= i <= words@.len(),
                        views(args@) == views(words@).subrange(1, i as int),
                    decreases words.len() - i,
                {
                    let ghost before = args@;
                    args.push(owned(words[i].as_str()));
                    assert(args@ == before.push(args@.last()));
                    assert(views(args@) =~= views(before).push(words@[i as int]@));
                    assert(views(args@) =~= views(words@).subrange(1, i + 1));
                    i = i + 1;
                }
                assert(views(words@).drop_first() =~= views(words@).subrange(1, words@.len() as int));
                Ok((program, args))
            }
        },
    }
}

} // verus!

//! Deciding from what the user typed what to act on: the context a pattern
//! names, what `k8pk info` shows, and the server and authentication mode of a
//! login.

use vstd::prelude::*;
use crate::context::{match_pattern, pattern_matches};
use crate::error::{closest, closest_matches, K8pkError};
use crate::state::CurrentState;
use crate::summaries::prefixed;
use crate::text::{concat, decimal, join_seq, owned, str_eq, u64_to_string, views};

verus! {

/// What a context pattern selected: one context, or several to choose from.
#[derive(Debug)]
pub enum ContextMatch {
    One(String),
    Several(Vec<String>),
}

/// The "did you mean?" list: one indented bullet per suggestion.
pub open spec fn bullet_list(items: Seq<Seq<char>>) -> Seq<char> {
    join_seq(prefixed("    - "@, items), "\n"@)
}

/// The strings joined with `sep`.
fn join_strs(items: &Vec<String>, sep: &str) -> (r: String)
    ensures
        r@ == join_seq(views(items@), sep@),
{
    let ghost v = views(items@);
    let mut acc = String::new();
    proof {
        reveal_strlit("");
    }
    assert(acc@ =~= join_seq(v.take(0), sep@));
    let mut i: usize = 0;
    while i < items.len()
        invariant
            i <= items@.len(),
            v == views(items@),
            acc@ == join_seq(v.take(i as int), sep@),
        decreases items.len() - i,
    {
        assert(v.take(i + 1).drop_last() =~= v.take(i as int));
        assert(v.take(i + 1).last() == items@[i as int]@);
        if i == 0 {
            acc = owned(items[i].as_str());
            assert(v.take(1) =~= seq![items@[0]@]);
        } else {
            let with_sep = concat(acc.as_str(), sep);
            acc = concat(with_sep.as_str(), items[i].as_str());
        }
        i = i + 1;
    }
    assert(v.take(items@.len() as int) =~= v);
    acc
}

/// The suggestions, each as an indented bullet, one per line.
fn bullets(items: &Vec<&str>) -> (r: String)
    ensures
        r@ == bullet_list(items@.map_values(|s: &str| s@)),
{
    let ghost v = items@.map_values(|s: &str| s@);
    let mut lines: Vec<String> = Vec::new();
    let mut i: usize = 0;
    while i < items.len()
        invariant
            i <= items@.len(),
            v == items@.map_values(|s: &str| s@),
            views(lines@) == prefixed("    - "@, v.take(i as int)),
        decreases items.len() - i,
    {
        assert(v.take(i + 1).drop_last() =~= v.take(i as int));
        assert(v.take(i + 1).last() == items@[i as int]@);
        let ghost before = views(lines@);
        lines.push(concat("    - ", items[i]));
        assert(views(lines@) =~= before.push("    - "@ + items@[i as int]@));
        i = i + 1;
    }
    assert(v.take(items@.len() as int) =~= v);
    join_strs(&lines, "\n")
}

/// Picks the context a pattern names among `all`: the single match, the
/// several matches to choose from, or, when nothing matches, a not-found
/// error that lists up to three close names.
pub fn resolve_context(pattern: &str, all: &[String]) -> (r: Result<ContextMatch, K8pkError>)
    ensures
        match r {
            Ok(ContextMatch::One(c)) => pattern_matches(pattern@, views(all@)) == seq![c@],
            Ok(ContextMatch::Several(v)) => {
                &&& views(v@) == pattern_matches(pattern@, views(all@))
                &&& v@.len() > 1
            },
            Err(e) => {
                let sugg = closest(pattern@, pattern.len() as int, views(all@), 3);
                &&& pattern_matches(pattern@, views(all@)).len() == 0
                &&& (sugg.len() == 0 ==> (e matches K8pkError::ContextNotFound(p) && p@ == pattern@))
                &&& (sugg.len() > 0 ==> (e matches K8pkError::ContextNotFoundSuggestions { pattern: p, suggestions: s }
                    && p@ == pattern@ && s@ == bullet_list(sugg)))
            },
        },
{
    let mut matches = match_pattern(pattern, all);
    if matches.len() == 0 {
        let suggestions = closest_matches(pattern, all, 3);
        if suggestions.len() == 0 {
            Err(K8pkError::ContextNotFound(owned(pattern)))
        } else {
            Err(K8pkError::ContextNotFoundSuggestions { pattern: owned(pattern), suggestions: bullets(&suggestions) })
        }
    } else if matches.len() == 1 {
        let c = matches.pop().unwrap();
        assert(views(matches@).push(c@) =~= pattern_matches(pattern@, views(all@)));
        Ok(ContextMatch::One(c))
    } else {
        Ok(ContextMatch::Several(matches))
    }
}

/// The error when a pattern the user typed matches several contexts and no
/// one can be asked to choose.
pub fn ambiguous_context(input: &str, matches: &Vec<String>) -> (e: K8pkError)
    ensures
        e matches K8pkError::InvalidArgument(m) && m@ == "'"@ + input@ + "' matches multiple contexts: "@
            + join_seq(views(matches@), ", "@) + ". Be more specific."@,
{
    let head = concat("'", input);
    let head = concat(head.as_str(), "' matches multiple contexts: ");
    let list = join_strs(matches, ", ");
    let msg = concat(head.as_str(), list.as_str());
    K8pkError::InvalidArgument(concat(msg.as_str(), ". Be more specific."))
}

/// What `k8pk info` shows: a line of text, or the whole state as JSON.
#[derive(Debug)]
pub enum InfoOutput {
    Line(String),
    Json,
}

/// The error for `--display`/`--raw` used with anything but `ctx`.
pub open spec fn display_only_ctx() -> Seq<char> {
    "--display/--raw only apply to ctx"@
}

/// What `k8pk info WHAT` shows for the session `state`: a line, the whole
/// state as JSON (`None`), or an error that is `NotInContext` (`true`) or an
/// invalid argument with its message.
pub open spec fn info_spec(what: Seq<char>, display: bool, raw: bool, state: CurrentState) -> Result<Option<Seq<char>>, (bool, Seq<char>)> {
    if what == "ctx"@ || what == "context"@ {
        if display && raw {
            Err((false, "use only one of --display or --raw"@))
        } else if display {
            match state.context_display {
                Some(d) => Ok(Some(d@)),
                None => match state.context {
                    Some(c) => Ok(Some(c@)),
                    None => Err((true, Seq::empty())),
                },
            }
        } else {
            match state.context {
                Some(c) => Ok(Some(c@)),
                None => Err((true, Seq::empty())),
            }
        }
    } else if what == "ns"@ || what == "namespace"@ || what == "depth"@ || what == "config"@
        || what == "kubeconfig"@ || what == "all"@ || what == "json"@ {
        if display || raw {
            Err((false, display_only_ctx()))
        } else if what == "ns"@ || what == "namespace"@ {
            match state.namespace {
                Some(n) => Ok(Some(n@)),
                None => if state.context is Some {
                    Ok(Some("(default)"@))
                } else {
                    Err((true, Seq::empty()))
                },
            }
        } else if what == "depth"@ {
            Ok(Some(decimal(state.depth as nat)))
        } else if what == "config"@ || what == "kubeconfig"@ {
            match state.config_path {
                Some(p) => Ok(Some(p@)),
                None => Err((true, Seq::empty())),
            }
        } else {
            Ok(None)
        }
    } else {
        Err((false, "unknown info type: '"@ + what + "'. Use: ctx, ns, depth, config, all"@))
    }
}

/// Decides what `k8pk info WHAT [--display|--raw]` prints for the session
/// `state`: one line, the state as JSON (`all`, `json`), or an error
/// (`NotInContext` where the session lacks what was asked for,
/// `InvalidArgument` for a bad combination or an unknown `WHAT`).
pub fn info_output(what: &str, display: bool, raw: bool, state: &CurrentState) -> (r: Result<InfoOutput, K8pkError>)
    ensures
        match (r, info_spec(what@, display, raw, *state)) {
            (Ok(InfoOutput::Line(l)), Ok(Some(s))) => l@ == s,
            (Ok(InfoOutput::Json), Ok(None)) => true,
            (Err(e), Err((true, _))) => e is NotInContext,
            (Err(e), Err((false, m))) => e matches K8pkError::InvalidArgument(t) && t@ == m,
            _ => false,
        },
{
    proof {
        reveal_strlit("ctx");
        reveal_strlit("context");
        reveal_strlit("ns");
        reveal_strlit("namespace");
        reveal_strlit("depth");
        reveal_strlit("config");
        reveal_strlit("kubeconfig");
        reveal_strlit("all");
        reveal_strlit("json");
    }
    let is_ctx = str_eq(what, "ctx") || str_eq(what, "context");
    let is_ns = str_eq(what, "ns") || str_eq(what, "namespace");
    let is_depth = str_eq(what, "depth");
    let is_config = str_eq(what, "config") || str_eq(what, "kubeconfig");
    let is_all = str_eq(what, "all") || str_eq(what, "json");
    if is_ctx {
        if display && raw {
            return Err(K8pkError::InvalidArgument(owned("use only one of --display or --raw")));
        }
        if display {
            match &state.context_display {
                Some(d) => return Ok(InfoOutput::Line(owned(d.as_str()))),
                None => {},
            }
        }
        match &state.context {
            Some(c) => Ok(InfoOutput::Line(owned(c.as_str()))),
            None => Err(K8pkError::NotInContext),
        }
    } else if is_ns || is_depth || is_config || is_all {
        if display || raw {
            return Err(K8pkError::InvalidArgument(owned("--display/--raw only apply to ctx")));
        }
        if is_ns {
            match &state.namespace {
                Some(n) => Ok(InfoOutput::Line(owned(n.as_str()))),
                None => if state.context.is_some() {
                    Ok(InfoOutput::Line(owned("(default)")))
                } else {
                    Err(K8pkError::NotInContext)
                },
            }
        } else if is_depth {
            Ok(InfoOutput::Line(u64_to_string(state.depth as u64)))
        } else if is_config {
            match &state.config_path {
                Some(p) => Ok(InfoOutput::Line(owned(p.as_str()))),
                None => Err(K8pkError::NotInContext),
            }
        } else {
            Ok(InfoOutput::Json)
        }
    } else {
        let a = concat("unknown info type: '", what);
        Err(K8pkError::InvalidArgument(concat(a.as_str(), "'. Use: ctx, ns, depth, config, all")))
    }
}

/// The server of a login: `--server`, else the positional URL.
pub fn login_server(server: Option<String>, server_pos: Option<String>) -> (r: Result<String, K8pkError>)
    ensures
        match server {
            Some(s) => r == Ok::<String, K8pkError>(s),
            None => match server_pos {
                Some(p) => r == Ok::<String, K8pkError>(p),
                None => r matches Err(K8pkError::InvalidArgument(m))
                    && m@ == "server URL is required (use --server or provide as positional argument)"@,
            },
        },
{
    match server {
        Some(s) => Ok(s),
        None => match server_pos {
            Some(p) => Ok(p),
            None => Err(K8pkError::InvalidArgument(
                owned("server URL is required (use --server or provide as positional argument)"),
            )),
        },
    }
}

/// The authentication mode of a login given `--auth`: an exec preset turns
/// `auto` into `exec`; a preset together with an explicit exec command is
/// refused.
pub fn login_auth_mode(auth: &str, preset_given: bool, exec_command_given: bool) -> (r: Result<String, K8pkError>)
    ensures
        preset_given && exec_command_given ==> (r matches Err(K8pkError::InvalidArgument(m))
            && m@ == "use either --exec-preset or --exec-command, not both"@),
        !(preset_given && exec_command_given) ==> (r matches Ok(a)
            && a@ == (if preset_given && auth@ == "auto"@ { "exec"@ } else { auth@ })),
{
    if preset_given && exec_command_given {
        return Err(K8pkError::InvalidArgument(owned("use either --exec-preset or --exec-command, not both")));
    }
    if preset_given && str_eq(auth, "auto") {
        Ok(owned("exec"))
    } else {
        Ok(owned(auth))
    }
}

} // verus!

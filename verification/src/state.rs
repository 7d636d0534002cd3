//! The state of the current k8pk session, as its environment variables
//! carry it.

use vstd::prelude::*;
use crate::kubeconfig::opt_str;
use crate::login::opt_view;
use crate::text::{chars_of, chars_find, chars_sub, find_char, owned, parse_decimal, parsed_decimal, string_of};

verus! {

/// The current k8pk session state.
#[derive(Debug, Clone)]
pub struct CurrentState {
    /// Current Kubernetes context name.
    pub context: Option<String>,
    /// Display-friendly context name.
    pub context_display: Option<String>,
    /// Current namespace.
    pub namespace: Option<String>,
    /// Recursive shell depth (0 = not in a k8pk shell).
    pub depth: u32,
    /// Path to the active kubeconfig file.
    pub config_path: Option<String>,
}

impl Default for CurrentState {
    fn default() -> (r: CurrentState)
        ensures
            r.context is None,
            r.context_display is None,
            r.namespace is None,
            r.depth == 0,
            r.config_path is None,
    {
        CurrentState { context: None, context_display: None, namespace: None, depth: 0, config_path: None }
    }
}

/// The shell depth a `K8PK_DEPTH` value gives: its number, or 0 when unset
/// or not a `u32`.
pub open spec fn depth_of(v: Option<Seq<char>>) -> u32 {
    match v {
        Some(s) => match parsed_decimal(s, 4294967295) {
            Some(n) => n as u32,
            None => 0,
        },
        None => 0,
    }
}

/// Parses a `K8PK_DEPTH` value.
pub fn parse_depth(v: Option<&str>) -> (r: u32)
    ensures
        r == depth_of(opt_view(v)),
{
    match v {
        Some(s) => {
            let cs = chars_of(s);
            match parse_decimal(&cs, 4294967295) {
                Some(n) => n as u32,
                None => 0,
            }
        },
        None => 0,
    }
}

/// The first path of a `KUBECONFIG` value (paths are `:`-separated).
pub open spec fn first_path(v: Seq<char>) -> Seq<char> {
    match find_char(v, ':') {
        Some(k) => v.subrange(0, k),
        None => v,
    }
}

/// The first path of a `KUBECONFIG` value.
pub fn kubeconfig_first_path(v: &str) -> (r: String)
    ensures
        r@ == first_path(v@),
{
    let cs = chars_of(v);
    let colon = vec![':'];
    assert(colon@ =~= seq![':']);
    match chars_find(&cs, &colon) {
        Some(k) => {
            proof {
                crate::text::lemma_find_from(cs@, colon@, 0);
            }
            string_of(&chars_sub(&cs, 0, k))
        },
        None => owned(v),
    }
}

impl CurrentState {
    /// The state that the session's environment values give: `K8PK_CONTEXT`,
    /// `K8PK_CONTEXT_DISPLAY`, `K8PK_NAMESPACE`, `K8PK_DEPTH`, and the first
    /// `KUBECONFIG` path when that file exists.
    pub fn from_vars(
        context: Option<&str>,
        context_display: Option<&str>,
        namespace: Option<&str>,
        depth: Option<&str>,
        config_path: Option<&str>,
    ) -> (r: CurrentState)
        ensures
            opt_str(r.context) == opt_view(context),
            opt_str(r.context_display) == opt_view(context_display),
            opt_str(r.namespace) == opt_view(namespace),
            r.depth == depth_of(opt_view(depth)),
            opt_str(r.config_path) == opt_view(config_path),
    {
        CurrentState {
            context: match context {
                Some(s) => Some(owned(s)),
                None => None,
            },
            context_display: match context_display {
                Some(s) => Some(owned(s)),
                None => None,
            },
            namespace: match namespace {
                Some(s) => Some(owned(s)),
                None => None,
            },
            depth: parse_depth(depth),
            config_path: match config_path {
                Some(s) => Some(owned(s)),
                None => None,
            },
        }
    }
}

/// A value of the state's JSON form.
#[derive(Debug, Clone, PartialEq, Eq)]
pub enum StateValue {
    Text(String),
    Number(u32),
}

/// The fields of the state's JSON form, in order: `context`,
/// `context_display` and `namespace` when set, `depth`, and `config` when set.
pub open spec fn state_fields(s: CurrentState) -> Seq<(Seq<char>, StateValue)> {
    (match s.context {
        Some(c) => seq![("context"@, StateValue::Text(c))],
        None => Seq::empty(),
    }) + (match s.context_display {
        Some(c) => seq![("context_display"@, StateValue::Text(c))],
        None => Seq::empty(),
    }) + (match s.namespace {
        Some(n) => seq![("namespace"@, StateValue::Text(n))],
        None => Seq::empty(),
    }) + seq![("depth"@, StateValue::Number(s.depth))] + match s.config_path {
        Some(p) => seq![("config"@, StateValue::Text(p))],
        None => Seq::empty(),
    }
}

/// The keys and values by content.
pub open spec fn fields_view(v: Seq<(String, StateValue)>) -> Seq<(Seq<char>, StateValue)> {
    v.map_values(|p: (String, StateValue)| (p.0@, p.1))
}

fn push_field(v: &mut Vec<(String, StateValue)>, k: &str, val: StateValue)
    ensures
        fields_view(final(v)@) == fields_view(old(v)@).push((k@, val)),
{
    let ghost before = fields_view(v@);
    let ghost vv = val;
    v.push((owned(k), val));
    assert(fields_view(v@) =~= before.push((k@, vv)));
}

fn copy_text(s: &String) -> (r: StateValue)
    ensures
        r == StateValue::Text(*s),
{
    let c = s.clone();
    assert(c == *s);
    StateValue::Text(c)
}

impl CurrentState {
    /// The fields of the state's JSON form (see `state_fields`).
    pub fn json_fields(&self) -> (r: Vec<(String, StateValue)>)
        ensures
            fields_view(r@) == state_fields(*self),
    {
        let mut v: Vec<(String, StateValue)> = Vec::new();
        assert(fields_view(v@) =~= Seq::<(Seq<char>, StateValue)>::empty());
        if let Some(c) = &self.context {
            push_field(&mut v, "context", copy_text(c));
        }
        if let Some(c) = &self.context_display {
            push_field(&mut v, "context_display", copy_text(c));
        }
        if let Some(n) = &self.namespace {
            push_field(&mut v, "namespace", copy_text(n));
        }
        push_field(&mut v, "depth", StateValue::Number(self.depth));
        if let Some(p) = &self.config_path {
            push_field(&mut v, "config", copy_text(p));
        }
        assert(fields_view(v@) =~= state_fields(*self));
        v
    }
}

} // verus!
